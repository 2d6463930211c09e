//! The byte-range request as it arrives over HTTP: a header value is scanned
//! for runs of decimal digits, the first two of which name the requested
//! start and (inclusive) end.  Parsing never fails: a missing or malformed
//! header falls back to a default window of `DEFAULT_RANGE` bytes from the
//! requested start (or from zero).  Values too large for `u64` saturate.

use vstd::prelude::*;

use crate::range;

verus! {

/// The default window length in bytes, served when the request names no end.
pub const DEFAULT_RANGE: u64 = 1048576;

/// A decimal digit.
pub open spec fn is_digit(c: char) -> bool {
    48 <= (c as u32) <= 57
}

/// The value of a decimal digit.
pub open spec fn digit_value(c: char) -> nat {
    ((c as u32) - 48) as nat
}

/// The values of the maximal runs of decimal digits in `s[i..]`, appended to
/// `acc`, with `cur` the value of the run `i` sits in, if any.
pub open spec fn runs_from(s: Seq<char>, i: int, cur: Option<nat>, acc: Seq<nat>) -> Seq<nat>
    decreases s.len() - i,
    when 0 <= i <= s.len()
{
    if i >= s.len() {
        match cur {
            Some(v) => acc.push(v),
            None => acc,
        }
    } else if is_digit(s[i]) {
        let v = match cur {
            Some(v) => 10 * v + digit_value(s[i]),
            None => digit_value(s[i]),
        };
        runs_from(s, i + 1, Some(v), acc)
    } else {
        match cur {
            Some(v) => runs_from(s, i + 1, None, acc.push(v)),
            None => runs_from(s, i + 1, None, acc),
        }
    }
}

/// The values of the maximal runs of decimal digits in `s`, in order of
/// appearance.
pub open spec fn digit_runs(s: Seq<char>) -> Seq<nat> {
    runs_from(s, 0, None, Seq::empty())
}

/// A value clamped into `u64`.
pub open spec fn sat64(n: nat) -> u64 {
    if n >= u64::MAX {
        u64::MAX
    } else {
        n as u64
    }
}

/// The start of the window a header value asks for: the first run of digits,
/// or `0` when there is none.
pub open spec fn parsed_start(s: Seq<char>) -> u64 {
    let rs = digit_runs(s);
    if rs.len() >= 1 {
        sat64(rs[0])
    } else {
        0
    }
}

/// The inclusive end of the window a header value asks for: the second run
/// of digits, unless there is none or it is less than the start, in which
/// case the end defaults to `start + DEFAULT_RANGE`.
pub open spec fn parsed_end(s: Seq<char>) -> u64 {
    let rs = digit_runs(s);
    let start: nat = if rs.len() >= 1 {
        rs[0]
    } else {
        0
    };
    if rs.len() >= 2 && rs[1] >= start {
        sat64(rs[1])
    } else {
        sat64((start + DEFAULT_RANGE) as nat)
    }
}

/// The parsed end never falls short of the parsed start.
pub proof fn lemma_parsed_end_ge_start(s: Seq<char>)
    ensures
        parsed_end(s) >= parsed_start(s),
{
}

/// The length of the window a header value asks for.
pub open spec fn parsed_offset(s: Seq<char>) -> u64 {
    (parsed_end(s) - parsed_start(s)) as u64
}

/// Scans `header_value` for runs of decimal digits and builds the requested
/// window: the first run is the start (`0` when absent), the second the
/// inclusive end, ignored when it is less than the start and replaced by
/// `start + DEFAULT_RANGE` whenever absent or ignored.  Never fails; digit
/// runs beyond `u64` saturate.
pub fn parse_range_with_defaults(header_value: &str) -> (r: range::Range)
    ensures
        r.spec_start() == parsed_start(header_value@),
        r.spec_offset() == parsed_offset(header_value@),
{
    let len = header_value.unicode_len();
    let mut found: Vec<u64> = Vec::new();
    let mut cur: Option<u64> = None;
    let ghost mut exact_acc: Seq<nat> = Seq::empty();
    let ghost mut exact_cur: Option<nat> = None;
    let mut i: usize = 0;
    while i < len
        invariant
            i <= len,
            len == header_value@.len(),
            digit_runs(header_value@) == runs_from(header_value@, i as int, exact_cur, exact_acc),
            found@.len() == exact_acc.len(),
            forall|j: int| 0 <= j < exact_acc.len() ==> found@[j] == sat64(exact_acc[j]),
            match exact_cur {
                Some(v) => cur matches Some(c) && c == sat64(v),
                None => cur is None,
            },
        decreases len - i,
    {
        let c = header_value.get_char(i);
        let code = c as u32;
        if 48 <= code && code <= 57 {
            let d = (code - 48) as u64;
            match cur {
                Some(v) => {
                    let stretched = match v.checked_mul(10) {
                        Some(x) => match x.checked_add(d) {
                            Some(y) => y,
                            None => u64::MAX,
                        },
                        None => u64::MAX,
                    };
                    proof {
                        let ve = exact_cur->Some_0;
                        assert(10 * ve + digit_value(header_value@[i as int]) >= 10 * ve);
                        if ve > u64::MAX {
                            assert(10 * ve >= ve);
                        }
                        assert(stretched == sat64(10 * ve + digit_value(header_value@[i as int])));
                    }
                    cur = Some(stretched);
                    proof {
                        exact_cur = Some(10 * exact_cur->Some_0 + digit_value(
                            header_value@[i as int],
                        ));
                    }
                },
                None => {
                    cur = Some(d);
                    proof {
                        exact_cur = Some(digit_value(header_value@[i as int]));
                    }
                },
            }
        } else {
            match cur {
                Some(v) => {
                    found.push(v);
                    proof {
                        exact_acc = exact_acc.push(exact_cur->Some_0);
                        exact_cur = None;
                    }
                    cur = None;
                },
                None => {
                },
            }
        }
        i = i + 1;
    }
    if let Some(v) = cur {
        found.push(v);
        proof {
            exact_acc = exact_acc.push(exact_cur->Some_0);
            exact_cur = None;
        }
    }
    proof {
        assert(digit_runs(header_value@) =~= exact_acc);
    }
    let ghost rs = digit_runs(header_value@);
    let start: u64 = if found.len() >= 1 {
        found[0]
    } else {
        0
    };
    proof {
        assert(start == parsed_start(header_value@));
    }
    let end: u64 = if found.len() >= 2 && found[1] >= start {
        found[1]
    } else {
        match start.checked_add(DEFAULT_RANGE) {
            Some(e) => e,
            None => u64::MAX,
        }
    };
    proof {
        let start_e: nat = if rs.len() >= 1 {
            rs[0]
        } else {
            0
        };
        if rs.len() >= 2 && rs[1] < start_e && sat64(rs[1]) == sat64(start_e) {
            assert(rs[1] >= u64::MAX);
            assert(start_e + DEFAULT_RANGE >= u64::MAX);
            assert(sat64((start_e + DEFAULT_RANGE) as nat) == u64::MAX);
        }
        assert(end == parsed_end(header_value@));
    }
    range::Range::new(start, end - start)
}

/// The inclusive end a window reports: `start + offset - 1` when the window
/// is nonempty, else `start`; `None` when that sum leaves `u64`.
pub open spec fn window_end(start: u64, offset: u64) -> Option<u64> {
    let last: u64 = if offset == 0 {
        0
    } else {
        (offset - 1) as u64
    };
    if start + last > u64::MAX {
        None
    } else {
        Some((start + last) as u64)
    }
}

/// A byte-range request as delivery sees it: a window over the file, either
/// parsed from a header or the default.
#[derive(Clone, Copy)]
pub struct Range(range::Range);

impl Range {
    /// The window the request asks for.
    pub closed spec fn spec_window(&self) -> range::Range {
        self.0
    }

    /// Parses a header value into a request window; never fails.
    pub fn from_header(header_value: &str) -> (r: Self)
        ensures
            r.spec_window().spec_start() == parsed_start(header_value@),
            r.spec_window().spec_offset() == parsed_offset(header_value@),
    {
        Range(parse_range_with_defaults(header_value))
    }

    pub fn start(&self) -> (r: u64)
        ensures
            r == self.spec_window().spec_start(),
    {
        self.0.start()
    }

    /// The inclusive end of the window, or `None` if it overflows `u64`.
    pub fn end(&self) -> (r: Option<u64>)
        ensures
            r == window_end(self.spec_window().spec_start(), self.spec_window().spec_offset()),
    {
        let offset = match self.0.offset().checked_sub(1) {
            Some(o) => o,
            None => 0,
        };
        self.0.start().checked_add(offset)
    }

    /// The underlying window.
    pub fn range(&self) -> (r: range::Range)
        ensures
            r == self.spec_window(),
    {
        self.0
    }

    /// The window clamped against the size of the file it will be read from.
    pub fn apply_file_size(&self, file_size: u64) -> (r: Range)
        ensures
            r.spec_window().spec_start() == range::clamped_start(
                self.spec_window().spec_start(),
                file_size,
            ),
            r.spec_window().spec_offset() == range::clamped_offset(
                self.spec_window().spec_start(),
                self.spec_window().spec_offset(),
                file_size,
            ),
    {
        Range(self.0.apply_filesize(file_size))
    }
}

impl Default for Range {
    /// The window a request without a header gets: the first `DEFAULT_RANGE`
    /// bytes of the file.
    fn default() -> (r: Self)
        ensures
            r.spec_window().spec_start() == 0,
            r.spec_window().spec_offset() == DEFAULT_RANGE,
    {
        Range(range::Range::new(0, DEFAULT_RANGE))
    }
}

} // verus!
