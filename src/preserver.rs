//! The word list kept between sessions: a buffer of bytes bound to a file.
use vstd::prelude::*;
use vstd::utf8::encode_utf8;

verus! {

/// The byte that ends each saved word.
pub const NEWLINE: u8 = 10;

/// A word list bound to an output file. The bytes of the list are held in a buffer;
/// writing the buffer to the file is left to the caller.
#[derive(Clone, Debug)]
pub struct Preserver {
    output_file: String,
    has_written: bool,
    buffer: Vec<u8>,
}

pub ghost struct PreserverView {
    pub output_file: Seq<char>,
    pub has_written: bool,
    pub buffer: Seq<u8>,
}

impl View for Preserver {
    type V = PreserverView;

    closed spec fn view(&self) -> PreserverView {
        PreserverView { output_file: self.output_file@, has_written: self.has_written, buffer: self.buffer@ }
    }
}

/// The bytes that saving `word` appends to the word list's file: the UTF-8 bytes of the
/// word, then a newline.
pub fn saved_line(word: &str) -> (r: Vec<u8>)
    ensures
        r@ == encode_utf8(word@).push(NEWLINE),
{
    let mut bytes = word.as_bytes_vec();
    bytes.push(NEWLINE);
    bytes
}

impl Preserver {
    /// A preserver for `file` with an empty buffer.
    pub fn new(file: &str) -> (r: Self)
        ensures
            r@ == (PreserverView { output_file: file@, has_written: false, buffer: Seq::empty() }),
    {
        Preserver { output_file: String::from_str(file), has_written: false, buffer: Vec::new() }
    }

    /// A preserver for `filename` whose buffer holds `contents`, the text that the caller
    /// read from that file, as UTF-8 bytes.
    pub fn read_from_file(filename: &str, contents: &str) -> (r: Self)
        ensures
            r@ == (PreserverView { output_file: filename@, has_written: false, buffer: encode_utf8(contents@) }),
    {
        let mut p = Self::new(filename);
        p.buffer = contents.as_bytes_vec();
        p
    }

    /// Appends `s` to the buffer on a new line: a newline byte, then the UTF-8 bytes of `s`.
    pub fn add_string(&mut self, s: &str)
        ensures
            final(self)@ == (PreserverView {
                buffer: old(self)@.buffer.push(NEWLINE) + encode_utf8(s@),
                ..old(self)@
            }),
    {
        self.buffer.push(NEWLINE);
        let mut bytes = s.as_bytes_vec();
        self.buffer.append(&mut bytes);
    }

    /// The file that the buffer belongs to.
    pub fn output_file(&self) -> (r: &str)
        ensures
            r@ == self@.output_file,
    {
        self.output_file.as_str()
    }

    /// The bytes to be written to the output file.
    pub fn buffer(&self) -> (r: &Vec<u8>)
        ensures
            r@ == self@.buffer,
    {
        &self.buffer
    }
}

} // verus!
