use vstd::prelude::*;

use crate::packet::NetworkPacket;
use crate::text::{decimal, push_char, push_decimal};

verus! {

/// Where captured packets are appended, if anywhere: a directory, a file name without
/// extension, and the file type (`0` or `-1` text, `1` JSON).
#[derive(Clone)]
pub struct AutoSaver {
    pub directory: String,
    pub filename: String,
    pub filetype: i32,
}

/// The kind of file packets are appended to.
pub enum SaveFormat {
    /// One line of text per packet, in `<filename>.txt`.
    Text,
    /// A JSON array of packets, in `<filename>.json`.
    Json,
}

/// A file inside the save directory and the way packets are written to it.
pub struct SaveFile {
    pub name: String,
    pub format: SaveFormat,
}

/// What saving a packet does: make sure the directory exists, then write to the file,
/// if the file type names one.
pub struct SavePlan {
    pub directory: String,
    pub file: Option<SaveFile>,
}

impl Default for AutoSaver {
    /// Saving switched off: empty directory and file name, text file type.
    fn default() -> (r: AutoSaver)
        ensures
            r.directory@.len() == 0,
            r.filename@.len() == 0,
            r.filetype == 0,
    {
        AutoSaver { directory: String::new(), filename: String::new(), filetype: 0 }
    }
}

/// The file written for a file type, if any.
pub open spec fn save_file(filename: Seq<char>, filetype: i32) -> Option<(Seq<char>, SaveFormat)> {
    if filetype == 0 || filetype == -1 {
        Some((filename + ".txt"@, SaveFormat::Text))
    } else if filetype == 1 {
        Some((filename + ".json"@, SaveFormat::Json))
    } else {
        None
    }
}

/// The line a packet adds to a text file at the given UNIX time (seconds).
pub open spec fn text_line(timestamp: u64, packet: NetworkPacket) -> Seq<char> {
    seq!['\n', '['] + decimal(timestamp as nat) + "] "@ + packet.protocol@ + " | "@
        + packet.src_ip@ + " -> "@ + packet.dst_ip@ + " | "@ + packet.length_str@
}

impl AutoSaver {
    /// The saver for a directory and file name, writing text.
    pub fn new(directory: String, filename: String) -> (r: AutoSaver)
        ensures
            r.directory@ == directory@,
            r.filename@ == filename@,
            r.filetype == 0,
    {
        AutoSaver { directory, filename, filetype: 0 }
    }

    /// Saving is switched on: both the directory and the file name are set.
    pub open spec fn enabled(self) -> bool {
        self.directory@.len() > 0 && self.filename@.len() > 0
    }

    /// What `save_packet` does with a packet: nothing unless both the directory and the
    /// file name are set; otherwise ensure the directory and, for file type `0` or `-1`,
    /// append to `<filename>.txt`, for `1` to `<filename>.json`, for any other nothing more.
    pub fn save_plan(&self) -> (r: Option<SavePlan>)
        ensures
            r is Some <==> self.enabled(),
            r matches Some(plan) ==> {
                &&& plan.directory@ == self.directory@
                &&& match save_file(self.filename@, self.filetype) {
                    Some((name, format)) => plan.file matches Some(f) && f.name@ == name
                        && f.format == format,
                    None => plan.file is None,
                }
            },
    {
        if self.directory.as_str().is_empty() || self.filename.as_str().is_empty() {
            return None;
        }
        let file = if self.filetype == 0 || self.filetype == -1 {
            Some(SaveFile { name: self.filename.clone().concat(".txt"), format: SaveFormat::Text })
        } else if self.filetype == 1 {
            Some(SaveFile { name: self.filename.clone().concat(".json"), format: SaveFormat::Json })
        } else {
            None
        };
        Some(SavePlan { directory: self.directory.clone(), file })
    }
}

/// The line appended to a text file for `packet` at UNIX time `timestamp`:
/// `"\n[<timestamp>] <protocol> | <source> -> <destination> | <size>"`.
pub fn text_record(timestamp: u64, packet: &NetworkPacket) -> (r: String)
    ensures
        r@ == text_line(timestamp, *packet),
{
    let mut s = String::new();
    push_char(&mut s, '\n');
    push_char(&mut s, '[');
    push_decimal(&mut s, timestamp);
    s.append("] ");
    s.append(packet.protocol.as_str());
    s.append(" | ");
    s.append(packet.src_ip.as_str());
    s.append(" -> ");
    s.append(packet.dst_ip.as_str());
    s.append(" | ");
    s.append(packet.length_str.as_str());
    s
}

/// File types `0` and `-1` both append text lines to `<filename>.txt`, type `1` writes a
/// JSON array to `<filename>.json`, and no other type writes a file.
pub proof fn lemma_file_types(filename: Seq<char>, filetype: i32)
    ensures
        save_file(filename, -1i32) == save_file(filename, 0i32),
        save_file(filename, 0i32) == Some((filename + ".txt"@, SaveFormat::Text)),
        save_file(filename, 1i32) == Some((filename + ".json"@, SaveFormat::Json)),
        filetype != 0 && filetype != -1 && filetype != 1 ==> save_file(filename, filetype) is None,
{
}

} // verus!
