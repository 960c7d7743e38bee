//! The generator model: a directive's inner specification is compiled into
//! a `Generator`, a closed set of fragment producers.
//!
//! The specification grammar is `kind ':' parameters`:
//! - `hex:N` draws `N` random bytes and emits their hexadecimal digits;
//! - `int:LO:HI` draws one random integer between `LO` and `HI` inclusive
//!   and emits its decimal digits;
//! - `var:NAME` emits the textual form of the variable `NAME`, resolved
//!   against the environment at render time.
//!
//! An unknown kind fails with an error naming the offending token; bad
//! parameters (no number, a value over `u64::MAX`, an inverted range, an
//! empty name) fail with a parameter error carrying the whole
//! specification text.

use vstd::prelude::*;

use crate::text::{all_dec_digits, dec_value_of, find_char, find_from, lemma_find_from, parse_u64,
    str_eq};
use crate::ErrView;
use crate::ScenarioError;

verus! {

/// A compiled directive: immutable, renderable any number of times.
#[derive(Debug)]
pub enum Generator {
    /// `hex:N`: `N` random bytes as `2 * N` hexadecimal digits.
    HexBytes { len: u64 },
    /// `int:LO:HI`: one random integer in `LO ..= HI`, in decimal.
    IntRange { lo: u64, hi: u64 },
    /// `var:NAME`: the textual form of a variable, resolved at render time.
    VarRef { name: String },
}

/// The mathematical value of a `Generator`.
pub enum GenView {
    HexBytes { len: u64 },
    IntRange { lo: u64, hi: u64 },
    VarRef { name: Seq<char> },
}

impl View for Generator {
    type V = GenView;

    open spec fn view(&self) -> GenView {
        match self {
            Generator::HexBytes { len } => GenView::HexBytes { len: *len },
            Generator::IntRange { lo, hi } => GenView::IntRange { lo: *lo, hi: *hi },
            Generator::VarRef { name } => GenView::VarRef { name: name@ },
        }
    }
}

impl Clone for Generator {
    /// A clone has the same mathematical value.
    fn clone(&self) -> (r: Generator)
        ensures
            r@ == self@,
    {
        match self {
            Generator::HexBytes { len } => Generator::HexBytes { len: *len },
            Generator::IntRange { lo, hi } => Generator::IntRange { lo: *lo, hi: *hi },
            Generator::VarRef { name } => Generator::VarRef { name: name.clone() },
        }
    }
}

/// A nonempty digit string denoting a value that fits in a `u64`.
pub open spec fn valid_u64_digits(s: Seq<char>) -> bool {
    s.len() > 0 && all_dec_digits(s) && dec_value_of(s) <= u64::MAX
}

/// What compiling a generator specification yields: the compiled
/// generator, or the exact error.
pub open spec fn compile_spec(s: Seq<char>) -> Result<GenView, ErrView> {
    match find_from(s, 0, ':') {
        None => {
            if s == "hex"@ || s == "int"@ || s == "var"@ {
                Err(ErrView::BadParameter { input: s })
            } else {
                Err(ErrView::UnknownGenerator { name: s })
            }
        },
        Some(j) => {
            let kind = s.subrange(0, j as int);
            let params = s.subrange(j as int + 1, s.len() as int);
            if kind == "hex"@ {
                if valid_u64_digits(params) {
                    Ok(GenView::HexBytes { len: dec_value_of(params) as u64 })
                } else {
                    Err(ErrView::BadParameter { input: s })
                }
            } else if kind == "int"@ {
                match find_from(s, (j + 1) as nat, ':') {
                    None => Err(ErrView::BadParameter { input: s }),
                    Some(k) => {
                        let lo_txt = s.subrange(j as int + 1, k as int);
                        let hi_txt = s.subrange(k as int + 1, s.len() as int);
                        if valid_u64_digits(lo_txt) && valid_u64_digits(hi_txt) && dec_value_of(
                            lo_txt,
                        ) <= dec_value_of(hi_txt) {
                            Ok(
                                GenView::IntRange {
                                    lo: dec_value_of(lo_txt) as u64,
                                    hi: dec_value_of(hi_txt) as u64,
                                },
                            )
                        } else {
                            Err(ErrView::BadParameter { input: s })
                        }
                    },
                }
            } else if kind == "var"@ {
                if params.len() > 0 {
                    Ok(GenView::VarRef { name: params })
                } else {
                    Err(ErrView::BadParameter { input: s })
                }
            } else {
                Err(ErrView::UnknownGenerator { name: kind })
            }
        },
    }
}

/// Compile a directive's inner specification, exactly as `compile_spec`
/// says.
pub fn generator(s: &str) -> (r: Result<Generator, ScenarioError>)
    ensures
        match r {
            Ok(g) => compile_spec(s@) == Ok::<GenView, ErrView>(g@),
            Err(e) => compile_spec(s@) == Err::<GenView, ErrView>(e@),
        },
{
    let len = s.unicode_len();
    match find_char(s, 0, ':') {
        None => {
            if str_eq(s, "hex") || str_eq(s, "int") || str_eq(s, "var") {
                Err(ScenarioError::BadParameter { input: s.to_owned() })
            } else {
                Err(ScenarioError::UnknownGenerator { name: s.to_owned() })
            }
        },
        Some(j) => {
            proof {
                lemma_find_from(s@, 0, ':');
            }
            let kind = s.substring_char(0, j);
            let params = s.substring_char(j + 1, len);
            if str_eq(kind, "hex") {
                match parse_u64(params) {
                    Some(v) => Ok(Generator::HexBytes { len: v }),
                    None => Err(ScenarioError::BadParameter { input: s.to_owned() }),
                }
            } else if str_eq(kind, "int") {
                match find_char(s, j + 1, ':') {
                    None => Err(ScenarioError::BadParameter { input: s.to_owned() }),
                    Some(k) => {
                        proof {
                            lemma_find_from(s@, (j + 1) as nat, ':');
                        }
                        let lo_txt = s.substring_char(j + 1, k);
                        let hi_txt = s.substring_char(k + 1, len);
                        let lo = parse_u64(lo_txt);
                        let hi = parse_u64(hi_txt);
                        match (lo, hi) {
                            (Some(lo), Some(hi)) => {
                                if lo <= hi {
                                    Ok(Generator::IntRange { lo, hi })
                                } else {
                                    Err(ScenarioError::BadParameter { input: s.to_owned() })
                                }
                            },
                            _ => Err(ScenarioError::BadParameter { input: s.to_owned() }),
                        }
                    },
                }
            } else if str_eq(kind, "var") {
                if params.unicode_len() > 0 {
                    Ok(Generator::VarRef { name: params.to_owned() })
                } else {
                    Err(ScenarioError::BadParameter { input: s.to_owned() })
                }
            } else {
                Err(ScenarioError::UnknownGenerator { name: kind.to_owned() })
            }
        },
    }
}

} // verus!
