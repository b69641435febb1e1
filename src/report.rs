//! The text of a scan's report.
use vstd::prelude::*;
use vstd::string::StringExecFns;
use crate::detect::Detection;
use crate::record::ImgRef;

verus! {

/// The character of a decimal digit.
pub open spec fn digit_char(d: nat) -> char {
    if d == 0 {
        '0'
    } else if d == 1 {
        '1'
    } else if d == 2 {
        '2'
    } else if d == 3 {
        '3'
    } else if d == 4 {
        '4'
    } else if d == 5 {
        '5'
    } else if d == 6 {
        '6'
    } else if d == 7 {
        '7'
    } else if d == 8 {
        '8'
    } else {
        '9'
    }
}

/// The decimal digits of `n`, without leading zeros.
pub open spec fn digits_of(n: nat) -> Seq<char>
    decreases n,
{
    if n < 10 {
        seq![digit_char(n)]
    } else {
        digits_of(n / 10).push(digit_char(n % 10))
    }
}

/// `n` in decimal, with a leading `-` when negative.
pub open spec fn decimal(n: int) -> Seq<char> {
    if n < 0 {
        seq!['-'] + digits_of((-n) as nat)
    } else {
        digits_of(n as nat)
    }
}

/// The one-character text of a decimal digit.
fn digit_str(d: u8) -> (r: &'static str)
    requires
        d < 10,
    ensures
        r@ == seq![digit_char(d as nat)],
{
    if d == 0 {
        proof {
            reveal_strlit("0");
        }
        "0"
    } else if d == 1 {
        proof {
            reveal_strlit("1");
        }
        "1"
    } else if d == 2 {
        proof {
            reveal_strlit("2");
        }
        "2"
    } else if d == 3 {
        proof {
            reveal_strlit("3");
        }
        "3"
    } else if d == 4 {
        proof {
            reveal_strlit("4");
        }
        "4"
    } else if d == 5 {
        proof {
            reveal_strlit("5");
        }
        "5"
    } else if d == 6 {
        proof {
            reveal_strlit("6");
        }
        "6"
    } else if d == 7 {
        proof {
            reveal_strlit("7");
        }
        "7"
    } else if d == 8 {
        proof {
            reveal_strlit("8");
        }
        "8"
    } else {
        proof {
            reveal_strlit("9");
        }
        "9"
    }
}

/// Appends the decimal digits of `n` to `out`.
fn push_digits(out: &mut String, n: u128)
    ensures
        final(out)@ == old(out)@ + digits_of(n as nat),
    decreases n,
{
    if n >= 10 {
        push_digits(out, n / 10);
    }
    out.append(digit_str((n % 10) as u8));
    proof {
        if n >= 10 {
            assert(digits_of(n as nat) == digits_of((n / 10) as nat).push(digit_char((n % 10) as nat)));
        }
        assert(out@ =~= old(out)@ + digits_of(n as nat));
    }
}

/// `n` in decimal, with a leading `-` when negative.
fn decimal_text(n: i128) -> (r: String)
    ensures
        r@ == decimal(n as int),
{
    if n < 0 {
        let mut out = String::from_str("-");
        proof {
            reveal_strlit("-");
        }
        let magnitude: u128 = (-(n + 1)) as u128 + 1;
        push_digits(&mut out, magnitude);
        assert(out@ =~= decimal(n as int));
        out
    } else {
        let mut out = String::new();
        push_digits(&mut out, n as u128);
        assert(out@ =~= decimal(n as int));
        out
    }
}

/// How a record reads in the report: path, size and creation time.
pub open spec fn record_text(r: ImgRef) -> Seq<char> {
    r.path_string@ + " ("@ + decimal(r.width as int) + " x "@ + decimal(r.height as int)
        + ") <created: "@ + decimal(r.created.millis as int) + ">"@
}

impl ImgRef {
    /// The record as one line of text: `path (width x height) <created: millis>`.
    pub fn debug_string(&self) -> (r: String)
        ensures
            r@ == record_text(*self),
    {
        let mut s = self.path_string.clone();
        s.append(" (");
        s.append(decimal_text(self.width as i128).as_str());
        s.append(" x ");
        s.append(decimal_text(self.height as i128).as_str());
        s.append(") <created: ");
        s.append(decimal_text(self.created.millis as i128).as_str());
        s.append(">");
        s
    }
}

/// The block that reports the records at `i` and `i + 1` as likely duplicates.
pub open spec fn pair_text(s: Seq<ImgRef>, i: int) -> Seq<char> {
    "possible duplicates:\n  "@ + record_text(s[i]) + "\n  "@ + record_text(s[i + 1]) + "\n"@
}

/// The blocks of the first `k` reported pairs, in order.
pub open spec fn pairs_text(s: Seq<ImgRef>, pairs: Seq<usize>, k: int) -> Seq<char>
    decreases k,
{
    if k <= 0 {
        Seq::empty()
    } else {
        pairs_text(s, pairs, k - 1) + pair_text(s, pairs[k - 1] as int)
    }
}

/// The whole report: the number of images, then one block per pair.
pub open spec fn report_text(s: Seq<ImgRef>, pairs: Seq<usize>) -> Seq<char> {
    "found "@ + decimal(s.len() as int) + " images\n"@ + pairs_text(s, pairs, pairs.len() as int)
}

/// Renders the report of a detection: a line with the number of images, then
/// for each pair a block that names both records.
pub fn render_report(d: &Detection) -> (r: String)
    requires
        d.wf(),
    ensures
        r@ == report_text(d.sorted@, d.pairs@),
{
    let mut out = String::from_str("found ");
    out.append(decimal_text(d.sorted.len() as i128).as_str());
    out.append(" images\n");
    let ghost head = out@;
    let n = d.sorted.len();
    let mut k: usize = 0;
    while k < d.pairs.len()
        invariant
            d.wf(),
            n == d.sorted@.len(),
            k <= d.pairs@.len(),
            out@ == head + pairs_text(d.sorted@, d.pairs@, k as int),
        decreases d.pairs@.len() - k,
    {
        let i = d.pairs[k];
        assert(i + 1 < d.sorted@.len());
        out.append("possible duplicates:\n  ");
        out.append(d.sorted[i].debug_string().as_str());
        out.append("\n  ");
        out.append(d.sorted[i + 1].debug_string().as_str());
        out.append("\n");
        k = k + 1;
        assert(out@ =~= head + pairs_text(d.sorted@, d.pairs@, k as int));
    }
    out
}

} // verus!
