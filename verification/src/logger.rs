use vstd::prelude::*;

verus! {

use vstd::string::StringSliceAdditionalSpecFns;

/// Severity of a kernel log message.
#[derive(Debug, Clone, Copy, PartialEq, Eq, Structural)]
pub enum LogLevel {
    Trace,
    Debug,
    Info,
    Warn,
    Error,
}

impl LogLevel {
    /// The three-letter tag that starts a log line of this level.
    pub open spec fn spec_tag(self) -> Seq<char> {
        match self {
            LogLevel::Trace => seq!['T', 'R', 'C'],
            LogLevel::Debug => seq!['D', 'B', 'G'],
            LogLevel::Info => seq!['I', 'N', 'F'],
            LogLevel::Warn => seq!['W', 'R', 'N'],
            LogLevel::Error => seq!['E', 'R', 'R'],
        }
    }

    /// The three-letter tag that starts a log line of this level.
    pub fn tag(self) -> (r: &'static str)
        ensures
            r@ == self.spec_tag(),
    {
        match self {
            LogLevel::Trace => {
                let r = "TRC";
                proof {
                    reveal_strlit("TRC");
                }
                r
            },
            LogLevel::Debug => {
                let r = "DBG";
                proof {
                    reveal_strlit("DBG");
                }
                r
            },
            LogLevel::Info => {
                let r = "INF";
                proof {
                    reveal_strlit("INF");
                }
                r
            },
            LogLevel::Warn => {
                let r = "WRN";
                proof {
                    reveal_strlit("WRN");
                }
                r
            },
            LogLevel::Error => {
                let r = "ERR";
                proof {
                    reveal_strlit("ERR");
                }
                r
            },
        }
    }
}

/// `b` with an ASCII lower-case letter turned into upper case.
pub open spec fn ascii_upper(b: u8) -> u8 {
    if 97 <= b <= 122 { (b - 32) as u8 } else { b }
}

/// Turns an ASCII lower-case letter into upper case and keeps any other byte.
fn to_ascii_upper(b: u8) -> (r: u8)
    ensures
        r == ascii_upper(b),
{
    if b >= 97 && b <= 122 { b - 32 } else { b }
}

/// The four-byte source column of a log line: the first (up to) four bytes of
/// `source` in ASCII upper case, padded with spaces.
pub open spec fn spec_source_tag(source: Seq<u8>) -> Seq<u8> {
    Seq::new(4, |i: int| if i < source.len() { ascii_upper(source[i]) } else { 32u8 })
}

/// The four-byte source column of a log line: the first (up to) four bytes of
/// `source` in ASCII upper case, padded with spaces.
pub fn source_tag(source: &str) -> (r: [u8; 4])
    ensures
        r@ == spec_source_tag(source.spec_bytes()),
{
    let bytes = source.as_bytes();
    let mut buf: [u8; 4] = [32u8, 32u8, 32u8, 32u8];
    let copy: usize = if bytes.len() < 4 { bytes.len() } else { 4 };
    let mut i: usize = 0;
    while i < copy
        invariant
            copy <= 4,
            copy <= bytes@.len(),
            copy == bytes@.len() || copy == 4,
            i <= copy,
            bytes@ == source.spec_bytes(),
            forall|j: int| 0 <= j < 4 ==> buf@[j] == if j < i {
                ascii_upper(bytes@[j])
            } else {
                32u8
            },
        decreases copy - i,
    {
        buf[i] = to_ascii_upper(bytes[i]);
        i = i + 1;
    }
    assert(buf@ =~= spec_source_tag(source.spec_bytes()));
    buf
}

} // verus!
