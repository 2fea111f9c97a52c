use vstd::prelude::*;
use vstd::utf8::encode_utf8;

verus! {

/// One of the four quantities that can be counted.
#[derive(Clone, Copy, Debug, PartialEq, Eq, Structural)]
pub enum Field {
    Lines,
    Words,
    Chars,
    Bytes,
}

/// The selection of fields that are counted and displayed.
#[derive(Clone, Copy, Debug, PartialEq, Eq, Structural)]
pub struct CounterSettings {
    pub count_bytes: bool,
    pub count_chars: bool,
    pub count_words: bool,
    pub count_lines: bool,
}

/// Four non-negative counts, one per field.
pub struct Counts {
    pub lines: nat,
    pub words: nat,
    pub chars: nat,
    pub bytes: nat,
}

impl Counts {
    pub open spec fn zero() -> Counts {
        Counts { lines: 0, words: 0, chars: 0, bytes: 0 }
    }

    pub open spec fn plus(self, o: Counts) -> Counts {
        Counts {
            lines: self.lines + o.lines,
            words: self.words + o.words,
            chars: self.chars + o.chars,
            bytes: self.bytes + o.bytes,
        }
    }

    pub open spec fn get(self, f: Field) -> nat {
        match f {
            Field::Lines => self.lines,
            Field::Words => self.words,
            Field::Chars => self.chars,
            Field::Bytes => self.bytes,
        }
    }

    /// Every count fits in a `u64`.
    pub open spec fn fits(self) -> bool {
        &&& self.lines <= u64::MAX
        &&& self.words <= u64::MAX
        &&& self.chars <= u64::MAX
        &&& self.bytes <= u64::MAX
    }

    pub open spec fn le(self, o: Counts) -> bool {
        &&& self.lines <= o.lines
        &&& self.words <= o.words
        &&& self.chars <= o.chars
        &&& self.bytes <= o.bytes
    }
}

/// ASCII whitespace as `u8::is_ascii_whitespace` defines it.
pub open spec fn is_space(b: u8) -> bool {
    b == 0x20u8 || b == 0x09u8 || b == 0x0au8 || b == 0x0cu8 || b == 0x0du8
}

/// A word starts at `i` when the byte there is not whitespace and the one
/// before it, if any, is.
pub open spec fn starts_word(s: Seq<u8>, i: int) -> bool {
    &&& !is_space(s[i])
    &&& (i == 0 || is_space(s[i - 1]))
}

/// The number of maximal runs of non-whitespace bytes in `s`.
pub open spec fn word_count(s: Seq<u8>) -> nat
    decreases s.len(),
{
    if s.len() == 0 {
        0
    } else {
        word_count(s.drop_last()) + if starts_word(s, s.len() - 1) {
            1nat
        } else {
            0nat
        }
    }
}

/// What one line of text contributes to each field. Whitespace bytes in
/// UTF-8 only ever stand for ASCII whitespace characters, so counting words
/// over the encoded bytes counts them over the characters.
pub open spec fn line_counts(line: Seq<char>) -> Counts {
    Counts {
        lines: 1,
        words: word_count(encode_utf8(line)),
        chars: line.len(),
        bytes: encode_utf8(line).len(),
    }
}

/// What a sequence of lines contributes to each field.
pub open spec fn stream_counts(lines: Seq<String>) -> Counts
    decreases lines.len(),
{
    if lines.len() == 0 {
        Counts::zero()
    } else {
        stream_counts(lines.drop_last()).plus(line_counts(lines.last()@))
    }
}

impl CounterSettings {
    /// The active fields in display order: lines, words, chars, bytes.
    pub open spec fn active_fields(self) -> Seq<Field> {
        (if self.count_lines { seq![Field::Lines] } else { Seq::empty() })
            + (if self.count_words { seq![Field::Words] } else { Seq::empty() })
            + (if self.count_chars { seq![Field::Chars] } else { Seq::empty() })
            + (if self.count_bytes { seq![Field::Bytes] } else { Seq::empty() })
    }

    /// `c` with every inactive field set to zero.
    pub open spec fn select(self, c: Counts) -> Counts {
        Counts {
            lines: if self.count_lines { c.lines } else { 0 },
            words: if self.count_words { c.words } else { 0 },
            chars: if self.count_chars { c.chars } else { 0 },
            bytes: if self.count_bytes { c.bytes } else { 0 },
        }
    }

    /// The selection used when no field is asked for.
    pub open spec fn default_selection() -> CounterSettings {
        CounterSettings { count_bytes: true, count_chars: false, count_words: true, count_lines: true }
    }

    pub fn new(count_bytes: bool, count_chars: bool, count_words: bool, count_lines: bool) -> (r:
        Self)
        ensures
            r == (CounterSettings { count_bytes, count_chars, count_words, count_lines }),
    {
        CounterSettings { count_bytes, count_chars, count_words, count_lines }
    }

    /// The active fields, in display order.
    pub fn counted_fields(&self) -> (r: Vec<Field>)
        ensures
            r@ == self.active_fields(),
    {
        let mut r: Vec<Field> = Vec::new();
        if self.count_lines {
            r.push(Field::Lines);
        }
        if self.count_words {
            r.push(Field::Words);
        }
        if self.count_chars {
            r.push(Field::Chars);
        }
        if self.count_bytes {
            r.push(Field::Bytes);
        }
        assert(r@ =~= self.active_fields());
        r
    }
}

/// Counts of one input (or the totals over several), with its display name
/// and, for an input that could not be counted, the message shown instead.
#[derive(Debug)]
pub struct Counter {
    pub settings: CounterSettings,
    pub lines: u64,
    pub words: u64,
    pub chars: u64,
    pub bytes: u64,
    pub name: String,
    pub err: Option<String>,
}

impl Counter {
    pub open spec fn counts(&self) -> Counts {
        Counts {
            lines: self.lines as nat,
            words: self.words as nat,
            chars: self.chars as nat,
            bytes: self.bytes as nat,
        }
    }

    /// Fields that are not selected stay at zero.
    pub open spec fn wf(&self) -> bool {
        self.settings.select(self.counts()) == self.counts()
    }

    pub fn new(name: String, settings: CounterSettings) -> (r: Self)
        ensures
            r.counts() == Counts::zero(),
            r.settings == settings,
            r.name@ == name@,
            r.err.is_none(),
            r.wf(),
    {
        Counter { settings, lines: 0, words: 0, chars: 0, bytes: 0, name, err: None }
    }

    /// The count of field `key`.
    pub fn index(&self, key: Field) -> (r: u64)
        ensures
            r == self.counts().get(key),
    {
        match key {
            Field::Bytes => self.bytes,
            Field::Chars => self.chars,
            Field::Words => self.words,
            Field::Lines => self.lines,
        }
    }

    /// Adds one line of text (with its newline, if it had one) to the
    /// selected fields.
    pub fn count_line(&mut self, line: &str)
        requires
            old(self).counts().plus(old(self).settings.select(line_counts(line@))).fits(),
        ensures
            final(self).counts() == old(self).counts().plus(
                old(self).settings.select(line_counts(line@)),
            ),
            final(self).settings == old(self).settings,
            final(self).name == old(self).name,
            final(self).err == old(self).err,
            old(self).wf() ==> final(self).wf(),
    {
        let bytes = line.as_bytes();
        if self.settings.count_bytes {
            self.bytes = self.bytes + bytes.len() as u64;
        }
        if self.settings.count_chars {
            self.chars = self.chars + line.unicode_len() as u64;
        }
        if self.settings.count_words {
            self.words = self.words + count_words(bytes);
        }
        if self.settings.count_lines {
            self.lines = self.lines + 1;
        }
    }

    /// Adds every line of a stream, in order, to the selected fields.
    pub fn count_stream(&mut self, lines: &Vec<String>)
        requires
            old(self).counts().plus(old(self).settings.select(stream_counts(lines@))).fits(),
        ensures
            final(self).counts() == old(self).counts().plus(
                old(self).settings.select(stream_counts(lines@)),
            ),
            final(self).settings == old(self).settings,
            final(self).name == old(self).name,
            final(self).err == old(self).err,
            old(self).wf() ==> final(self).wf(),
    {
        let ghost start = self.counts();
        let mut i: usize = 0;
        while i < lines.len()
            invariant
                i <= lines@.len(),
                self.settings == old(self).settings,
                self.name == old(self).name,
                self.err == old(self).err,
                start == old(self).counts(),
                self.counts() == start.plus(self.settings.select(stream_counts(lines@.take(i as int)))),
                start.plus(self.settings.select(stream_counts(lines@))).fits(),
                old(self).wf() ==> self.wf(),
            decreases lines@.len() - i,
        {
            proof {
                let next = lines@.take(i + 1);
                assert(next.drop_last() =~= lines@.take(i as int));
                lemma_stream_prefix_le(lines@, i + 1);
            }
            self.count_line(lines[i].as_str());
            i = i + 1;
        }
        assert(lines@.take(i as int) =~= lines@);
    }

    /// Adds the counts of `other` field by field; the name, settings and
    /// error of `self` are kept.
    pub fn add(&mut self, other: &Counter)
        requires
            old(self).counts().plus(other.counts()).fits(),
        ensures
            final(self).counts() == old(self).counts().plus(other.counts()),
            final(self).settings == old(self).settings,
            final(self).name == old(self).name,
            final(self).err == old(self).err,
    {
        self.bytes = self.bytes + other.bytes;
        self.chars = self.chars + other.chars;
        self.words = self.words + other.words;
        self.lines = self.lines + other.lines;
    }
}

/// The counts of a prefix of a stream are at most those of the whole stream.
proof fn lemma_stream_prefix_le(lines: Seq<String>, i: int)
    requires
        0 <= i <= lines.len(),
    ensures
        stream_counts(lines.take(i)).le(stream_counts(lines)),
    decreases lines.len() - i,
{
    if i < lines.len() {
        lemma_stream_prefix_le(lines, i + 1);
        assert(lines.take(i + 1).drop_last() =~= lines.take(i));
    } else {
        assert(lines.take(i) =~= lines);
    }
}

/// The message shown for a path that names a directory.
pub open spec fn directory_message(path: Seq<char>) -> Seq<char> {
    "wc: "@ + path + ": is a directory"@
}

/// The counter of one input path.
#[derive(Debug)]
pub struct FileCounter {
    pub counts: Counter,
    pub filepath: String,
}

impl FileCounter {
    pub fn new(filepath: String, settings: CounterSettings) -> (r: Self)
        ensures
            r.filepath@ == filepath@,
            r.counts.name@ == filepath@,
            r.counts.settings == settings,
            r.counts.counts() == Counts::zero(),
            r.counts.err.is_none(),
            r.counts.wf(),
    {
        FileCounter { counts: Counter::new(filepath.clone(), settings), filepath }
    }

    /// Marks the path as a directory: its row shows a message instead of
    /// counts, and it adds nothing to the totals.
    pub fn record_directory(&mut self)
        ensures
            final(self).counts.err is Some,
            final(self).counts.err->Some_0@ == directory_message(old(self).filepath@),
            final(self).counts.counts() == old(self).counts.counts(),
            final(self).counts.name == old(self).counts.name,
            final(self).counts.settings == old(self).counts.settings,
            final(self).filepath == old(self).filepath,
    {
        let mut msg = String::from_str("wc: ");
        msg.append(self.filepath.as_str());
        msg.append(": is a directory");
        self.counts.err = Some(msg);
    }

    /// Counts the lines read from the path.
    pub fn count_stream(&mut self, lines: &Vec<String>)
        requires
            old(self).counts.counts().plus(
                old(self).counts.settings.select(stream_counts(lines@)),
            ).fits(),
        ensures
            final(self).counts.counts() == old(self).counts.counts().plus(
                old(self).counts.settings.select(stream_counts(lines@)),
            ),
            final(self).counts.settings == old(self).counts.settings,
            final(self).counts.name == old(self).counts.name,
            final(self).counts.err == old(self).counts.err,
            final(self).filepath == old(self).filepath,
    {
        self.counts.count_stream(lines);
    }
}

/// The number of words in `bytes`.
fn count_words(bytes: &[u8]) -> (r: u64)
    ensures
        r == word_count(bytes@),
{
    let mut n: u64 = 0;
    let mut i: usize = 0;
    while i < bytes.len()
        invariant
            i <= bytes@.len(),
            n <= i,
            n == word_count(bytes@.take(i as int)),
        decreases bytes@.len() - i,
    {
        let starts = !is_ascii_space(bytes[i]) && (i == 0 || is_ascii_space(bytes[i - 1]));
        if starts {
            n = n + 1;
        }
        proof {
            let next = bytes@.take(i + 1);
            assert(next.drop_last() =~= bytes@.take(i as int));
            assert(next[i as int] == bytes@[i as int]);
            if i > 0 {
                assert(next[i - 1] == bytes@[i - 1]);
            }
        }
        i = i + 1;
    }
    assert(bytes@.take(i as int) =~= bytes@);
    n
}

fn is_ascii_space(b: u8) -> (r: bool)
    ensures
        r == is_space(b),
{
    b == 0x20u8 || b == 0x09u8 || b == 0x0au8 || b == 0x0cu8 || b == 0x0du8
}

} // verus!
