//! Diagnostic records appended by the indent applicator, and the decimal
//! rendering used inside their messages.  Rendering records to a terminal or
//! a file is the caller's business; the engine only appends them, in order,
//! to a log it is handed.

use vstd::prelude::*;

verus! {

/// Severity of a diagnostic record.
#[derive(Clone, Copy, Debug, PartialEq, Eq, Structural)]
pub enum Severity {
    Trace,
    Info,
    Warn,
    Error,
}

/// One diagnostic record: what happened, where, and on which pass.
#[derive(Debug)]
pub struct Log {
    pub severity: Severity,
    pub pass: Option<usize>,
    pub filename: String,
    pub linum: Option<usize>,
    pub line: Option<String>,
    pub message: String,
}

/// Mathematical model of a diagnostic record.
pub struct LogModel {
    pub severity: Severity,
    pub pass: Option<usize>,
    pub filename: Seq<char>,
    pub linum: Option<int>,
    pub line: Option<Seq<char>>,
    pub message: Seq<char>,
}

impl View for Log {
    type V = LogModel;

    open spec fn view(&self) -> LogModel {
        LogModel {
            severity: self.severity,
            pass: self.pass,
            filename: self.filename@,
            linum: match self.linum {
                Some(n) => Some(n as int),
                None => None,
            },
            line: match self.line {
                Some(l) => Some(l@),
                None => None,
            },
            message: self.message@,
        }
    }
}

/// The models of a sequence of records.
pub open spec fn log_models(s: Seq<Log>) -> Seq<LogModel> {
    s.map_values(|l: Log| l@)
}

/// Append one record to the log.
pub fn record_log(
    logs: &mut Vec<Log>,
    severity: Severity,
    pass: Option<usize>,
    filename: String,
    linum: Option<usize>,
    line: Option<String>,
    message: String,
)
    ensures
        final(logs)@.len() == old(logs)@.len() + 1,
        log_models(final(logs)@) == log_models(old(logs)@).push(
            (LogModel {
                severity,
                pass,
                filename: filename@,
                linum: match linum {
                    Some(n) => Some(n as int),
                    None => None,
                },
                line: match line {
                    Some(l) => Some(l@),
                    None => None,
                },
                message: message@,
            }),
        ),
{
    let entry = Log { severity, pass, filename, linum, line, message };
    let ghost model = entry@;
    logs.push(entry);
    proof {
        assert(log_models(logs@) =~= log_models(old(logs)@).push(model));
    }
}

/// The decimal digit character for `d` in 0..10.
pub open spec fn digit_char(d: int) -> char {
    if d == 0 {
        '0'
    } else if d == 1 {
        '1'
    } else if d == 2 {
        '2'
    } else if d == 3 {
        '3'
    } else if d == 4 {
        '4'
    } else if d == 5 {
        '5'
    } else if d == 6 {
        '6'
    } else if d == 7 {
        '7'
    } else if d == 8 {
        '8'
    } else {
        '9'
    }
}

/// Decimal digits of a natural number, most significant first.
pub open spec fn dec_nat(n: nat) -> Seq<char>
    decreases n,
{
    if n < 10 {
        seq![digit_char(n as int)]
    } else {
        dec_nat(n / 10) + seq![digit_char((n % 10) as int)]
    }
}

/// Decimal rendering of an integer, with a leading minus sign if negative.
pub open spec fn dec_int(n: int) -> Seq<char> {
    if n >= 0 {
        dec_nat(n as nat)
    } else {
        seq!['-'] + dec_nat((-n) as nat)
    }
}

fn push_digit(out: &mut String, d: u64)
    requires
        d < 10,
    ensures
        final(out)@ == old(out)@ + seq![digit_char(d as int)],
{
    if d == 0 {
        proof {
            reveal_strlit("0");
            assert("0"@ =~= seq![digit_char(0int)]);
        }
        out.append("0");
    } else if d == 1 {
        proof {
            reveal_strlit("1");
            assert("1"@ =~= seq![digit_char(1int)]);
        }
        out.append("1");
    } else if d == 2 {
        proof {
            reveal_strlit("2");
            assert("2"@ =~= seq![digit_char(2int)]);
        }
        out.append("2");
    } else if d == 3 {
        proof {
            reveal_strlit("3");
            assert("3"@ =~= seq![digit_char(3int)]);
        }
        out.append("3");
    } else if d == 4 {
        proof {
            reveal_strlit("4");
            assert("4"@ =~= seq![digit_char(4int)]);
        }
        out.append("4");
    } else if d == 5 {
        proof {
            reveal_strlit("5");
            assert("5"@ =~= seq![digit_char(5int)]);
        }
        out.append("5");
    } else if d == 6 {
        proof {
            reveal_strlit("6");
            assert("6"@ =~= seq![digit_char(6int)]);
        }
        out.append("6");
    } else if d == 7 {
        proof {
            reveal_strlit("7");
            assert("7"@ =~= seq![digit_char(7int)]);
        }
        out.append("7");
    } else if d == 8 {
        proof {
            reveal_strlit("8");
            assert("8"@ =~= seq![digit_char(8int)]);
        }
        out.append("8");
    } else {
        proof {
            reveal_strlit("9");
            assert("9"@ =~= seq![digit_char(9int)]);
        }
        out.append("9");
    }
}

/// Append the decimal digits of `n` to `out`.
pub fn push_dec_u64(out: &mut String, n: u64)
    ensures
        final(out)@ == old(out)@ + dec_nat(n as nat),
    decreases n,
{
    if n < 10 {
        push_digit(out, n);
    } else {
        push_dec_u64(out, n / 10);
        push_digit(out, n % 10);
        proof {
            assert(out@ =~= old(out)@ + dec_nat(n as nat));
        }
    }
}

/// Append the decimal rendering of `n` to `out`, sign included.
pub fn push_dec_i64(out: &mut String, n: i64)
    requires
        n > i64::MIN,
    ensures
        final(out)@ == old(out)@ + dec_int(n as int),
{
    if n >= 0 {
        push_dec_u64(out, n as u64);
    } else {
        proof {
            reveal_strlit("-");
            assert("-"@ =~= seq!['-']);
        }
        out.append("-");
        push_dec_u64(out, (-n) as u64);
        proof {
            assert(out@ =~= old(out)@ + dec_int(n as int));
        }
    }
}

/// Append the decimal digits of `n` to `out`.
pub fn push_dec_usize(out: &mut String, n: usize)
    ensures
        final(out)@ == old(out)@ + dec_nat(n as nat),
    decreases n,
{
    if n < 10 {
        push_digit(out, n as u64);
    } else {
        push_dec_usize(out, n / 10);
        push_digit(out, (n % 10) as u64);
        proof {
            assert(out@ =~= old(out)@ + dec_nat(n as nat));
        }
    }
}

} // verus!
