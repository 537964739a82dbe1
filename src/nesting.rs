use vstd::prelude::*;

verus! {

/// Where a scan of a TOML text stands: in plain text, in a comment, or in
/// one of the four kinds of string.
#[derive(PartialEq, Eq, Structural, Clone, Copy, Debug)]
pub enum ScanMode {
    Plain,
    Comment,
    Basic,
    Literal,
    MultiBasic,
    MultiLiteral,
}

/// The state of a scan: the mode, the open brackets, the nesting marks
/// (`[`, `{` and `.`) of the current statement, and the most seen in any
/// statement.
#[derive(PartialEq, Eq, Structural, Clone, Copy, Debug)]
pub struct ScanState {
    pub mode: ScanMode,
    pub depth: usize,
    pub marks: usize,
    pub most: usize,
}

/// The byte at `j`, or 0 past the end.
pub open spec fn byte_at(b: Seq<u8>, j: int) -> u8 {
    if 0 <= j < b.len() {
        b[j]
    } else {
        0
    }
}

/// The same three bytes `q` start at `j`.
pub open spec fn triple_at(b: Seq<u8>, j: int, q: u8) -> bool {
    byte_at(b, j) == q && byte_at(b, j + 1) == q && byte_at(b, j + 2) == q
}

/// A closing triple quote at `j`, with the one or two quotes that the
/// string may still take after it.
pub open spec fn close_len(b: Seq<u8>, j: int, q: u8) -> int {
    if byte_at(b, j + 3) == q {
        if byte_at(b, j + 4) == q {
            5
        } else {
            4
        }
    } else {
        3
    }
}

/// One more nesting mark in the current statement.
pub open spec fn marked(st: ScanState, opens: bool) -> ScanState {
    let m = (st.marks + 1) as usize;
    ScanState {
        mode: st.mode,
        depth: if opens {
            (st.depth + 1) as usize
        } else {
            st.depth
        },
        marks: m,
        most: if m > st.most {
            m
        } else {
            st.most
        },
    }
}

/// A line ends in plain text: outside brackets, a new statement starts.
pub open spec fn line_end(st: ScanState) -> ScanState {
    ScanState {
        mode: ScanMode::Plain,
        depth: st.depth,
        marks: if st.depth == 0 {
            0
        } else {
            st.marks
        },
        most: st.most,
    }
}

/// `st` in another mode.
pub open spec fn with_mode(st: ScanState, mode: ScanMode) -> ScanState {
    ScanState { mode, depth: st.depth, marks: st.marks, most: st.most }
}

/// One step of the scan at `i`: how many bytes it reads, and the state
/// after them. Strings and comments are read as the TOML tokenizer reads
/// them: escapes skip a byte, a triple quote opens a multi-line string and
/// closes it with up to two more quotes.
pub open spec fn step(b: Seq<u8>, i: int, st: ScanState) -> (int, ScanState) {
    let c = byte_at(b, i);
    match st.mode {
        ScanMode::Plain => {
            if c == 34u8 {
                if triple_at(b, i, 34u8) {
                    (3, with_mode(st, ScanMode::MultiBasic))
                } else {
                    (1, with_mode(st, ScanMode::Basic))
                }
            } else if c == 39u8 {
                if triple_at(b, i, 39u8) {
                    (3, with_mode(st, ScanMode::MultiLiteral))
                } else {
                    (1, with_mode(st, ScanMode::Literal))
                }
            } else if c == 35u8 {
                (1, with_mode(st, ScanMode::Comment))
            } else if c == 91u8 || c == 123u8 {
                (1, marked(st, true))
            } else if c == 46u8 {
                (1, marked(st, false))
            } else if c == 93u8 || c == 125u8 {
                (
                    1,
                    ScanState {
                        mode: st.mode,
                        depth: if st.depth > 0 {
                            (st.depth - 1) as usize
                        } else {
                            0
                        },
                        marks: st.marks,
                        most: st.most,
                    },
                )
            } else if c == 10u8 {
                (1, line_end(st))
            } else {
                (1, st)
            }
        },
        ScanMode::Comment => {
            if c == 10u8 {
                (1, line_end(st))
            } else {
                (1, st)
            }
        },
        ScanMode::Basic => {
            if c == 92u8 && i + 1 < b.len() {
                (2, st)
            } else if c == 34u8 || c == 10u8 {
                (1, with_mode(st, ScanMode::Plain))
            } else {
                (1, st)
            }
        },
        ScanMode::Literal => {
            if c == 39u8 || c == 10u8 {
                (1, with_mode(st, ScanMode::Plain))
            } else {
                (1, st)
            }
        },
        ScanMode::MultiBasic => {
            if c == 92u8 && i + 1 < b.len() {
                (2, st)
            } else if triple_at(b, i, 34u8) {
                (close_len(b, i, 34u8), with_mode(st, ScanMode::Plain))
            } else {
                (1, st)
            }
        },
        ScanMode::MultiLiteral => {
            if triple_at(b, i, 39u8) {
                (close_len(b, i, 39u8), with_mode(st, ScanMode::Plain))
            } else {
                (1, st)
            }
        },
    }
}

/// The state after scanning `b` from `i` on.
pub open spec fn scan_from(b: Seq<u8>, i: int, st: ScanState) -> ScanState
    decreases b.len() - i,
{
    if i < 0 || i >= b.len() {
        st
    } else {
        let k = step(b, i, st).0;
        if k >= 1 {
            scan_from(b, i + k, step(b, i, st).1)
        } else {
            st
        }
    }
}

/// The state a scan starts in.
pub open spec fn start_state() -> ScanState {
    ScanState { mode: ScanMode::Plain, depth: 0, marks: 0, most: 0 }
}

/// The most nesting marks (`[`, `{` and `.` outside strings and comments)
/// in any one statement of the text. Every key path, table header and
/// nested array or inline table of the document is at most this deep.
pub open spec fn nesting(b: Seq<u8>) -> nat {
    scan_from(b, 0, start_state()).most as nat
}

proof fn lemma_step_bounds(b: Seq<u8>, i: int, st: ScanState)
    requires
        0 <= i < b.len(),
        st.depth <= i,
        st.marks <= i,
        st.most <= i,
    ensures
        1 <= step(b, i, st).0,
        i + step(b, i, st).0 <= b.len(),
        step(b, i, st).1.depth <= i + 1,
        step(b, i, st).1.marks <= i + 1,
        step(b, i, st).1.most <= i + 1,
{
}

fn scan_step(b: &[u8], i: usize, st: ScanState) -> (r: (usize, ScanState))
    requires
        i < b@.len(),
        st.depth <= i,
        st.marks <= i,
        st.most <= i,
    ensures
        r.0 as int == step(b@, i as int, st).0,
        r.1 == step(b@, i as int, st).1,
{
    let n = b.len();
    let c = b[i];
    let at1: u8 = if n - i > 1 { b[i + 1] } else { 0 };
    let at2: u8 = if n - i > 2 { b[i + 2] } else { 0 };
    let at3: u8 = if n - i > 3 { b[i + 3] } else { 0 };
    let at4: u8 = if n - i > 4 { b[i + 4] } else { 0 };
    let close: usize = if at3 == c {
        if at4 == c {
            5
        } else {
            4
        }
    } else {
        3
    };
    let plain = ScanState { mode: ScanMode::Plain, ..st };
    let mark = |opens: bool| -> (s: ScanState)
        requires
            st.marks <= i,
            st.depth <= i,
        ensures
            s == marked(st, opens),
    {
        let m = st.marks + 1;
        ScanState {
            mode: st.mode,
            depth: if opens {
                st.depth + 1
            } else {
                st.depth
            },
            marks: m,
            most: if m > st.most {
                m
            } else {
                st.most
            },
        }
    };
    let end_line = ScanState {
        mode: ScanMode::Plain,
        depth: st.depth,
        marks: if st.depth == 0 {
            0
        } else {
            st.marks
        },
        most: st.most,
    };
    let triple = at1 == c && at2 == c;
    match st.mode {
        ScanMode::Plain => {
            if c == 34u8 {
                if triple {
                    (3, ScanState { mode: ScanMode::MultiBasic, ..st })
                } else {
                    (1, ScanState { mode: ScanMode::Basic, ..st })
                }
            } else if c == 39u8 {
                if triple {
                    (3, ScanState { mode: ScanMode::MultiLiteral, ..st })
                } else {
                    (1, ScanState { mode: ScanMode::Literal, ..st })
                }
            } else if c == 35u8 {
                (1, ScanState { mode: ScanMode::Comment, ..st })
            } else if c == 91u8 || c == 123u8 {
                (1, mark(true))
            } else if c == 46u8 {
                (1, mark(false))
            } else if c == 93u8 || c == 125u8 {
                let d: usize = if st.depth > 0 {
                    st.depth - 1
                } else {
                    0
                };
                (1, ScanState { depth: d, ..st })
            } else if c == 10u8 {
                (1, end_line)
            } else {
                (1, st)
            }
        },
        ScanMode::Comment => {
            if c == 10u8 {
                (1, end_line)
            } else {
                (1, st)
            }
        },
        ScanMode::Basic => {
            if c == 92u8 && i + 1 < n {
                (2, st)
            } else if c == 34u8 || c == 10u8 {
                (1, plain)
            } else {
                (1, st)
            }
        },
        ScanMode::Literal => {
            if c == 39u8 || c == 10u8 {
                (1, plain)
            } else {
                (1, st)
            }
        },
        ScanMode::MultiBasic => {
            if c == 92u8 && i + 1 < n {
                (2, st)
            } else if c == 34u8 && triple {
                (close, plain)
            } else {
                (1, st)
            }
        },
        ScanMode::MultiLiteral => {
            if c == 39u8 && triple {
                (close, plain)
            } else {
                (1, st)
            }
        },
    }
}

/// The nesting of a document's text, read from its UTF-8 bytes.
pub fn measure_nesting(b: &[u8]) -> (r: usize)
    ensures
        r == nesting(b@),
{
    let n = b.len();
    let mut st = ScanState { mode: ScanMode::Plain, depth: 0, marks: 0, most: 0 };
    let mut i: usize = 0;
    while i < n
        invariant
            n == b@.len(),
            0 <= i <= n,
            st.depth <= i,
            st.marks <= i,
            st.most <= i,
            scan_from(b@, i as int, st) == scan_from(b@, 0, start_state()),
        decreases n - i,
    {
        proof {
            lemma_step_bounds(b@, i as int, st);
        }
        let (k, next) = scan_step(b, i, st);
        st = next;
        i = i + k;
    }
    st.most
}

} // verus!
