//! A configured feed source, and the parser for its human-authored
//! recency offset ("1 month", "12 months").

use vstd::prelude::*;
use crate::dates::{Date, spec_sub_months};
use crate::notion::{Page, PropertyValue, RichText, spec_get_property, get_property};
use crate::text::str_eq;

verus! {

/// A configured remote feed: its URL and, when set, the earliest calendar
/// date for which its entries are accepted.
#[derive(Debug, Clone)]
pub struct Source {
    pub link: String,
    pub offset_date: Option<Date>,
}

impl Source {
    pub open spec fn wf(self) -> bool {
        match self.offset_date {
            Some(d) => d.wf(),
            None => true,
        }
    }
}

pub open spec fn spec_is_digit(c: char) -> bool {
    48 <= c as int <= 57
}

pub open spec fn spec_all_digits(s: Seq<char>) -> bool {
    forall|i: int| 0 <= i < s.len() ==> spec_is_digit(s[i])
}

/// Numeric value of a digit string, most significant digit first.
pub open spec fn spec_digits_val(s: Seq<char>) -> int
    decreases s.len(),
{
    if s.len() == 0 {
        0
    } else {
        spec_digits_val(s.drop_last()) * 10 + (s.last() as int - 48)
    }
}

/// A month count in the plural form: digits without a leading zero, two or
/// more as a number.
pub open spec fn spec_plural_count(s: Seq<char>) -> bool {
    &&& s.len() >= 1
    &&& spec_all_digits(s)
    &&& s[0] != '0'
    &&& spec_digits_val(s) >= 2
}

/// What the offset text yields: exactly "1 month" yields one; "<k> months"
/// with k at least two yields k (or zero when k does not fit a `u32`, so
/// that an absurdly large offset falls back to "no cutoff"); any other text
/// yields nothing.
pub open spec fn spec_extract_offset(s: Seq<char>) -> Option<u32> {
    if s == "1 month"@ {
        Some(1u32)
    } else if s.len() >= 8 && s.subrange(s.len() - 7, s.len() as int) == " months"@
        && spec_plural_count(s.subrange(0, s.len() - 7)) {
        if spec_digits_val(s.subrange(0, s.len() - 7)) <= u32::MAX {
            Some(spec_digits_val(s.subrange(0, s.len() - 7)) as u32)
        } else {
            Some(0u32)
        }
    } else {
        None
    }
}

proof fn lemma_digits_val_nonneg(s: Seq<char>)
    requires
        spec_all_digits(s),
    ensures
        spec_digits_val(s) >= 0,
    decreases s.len(),
{
    if s.len() > 0 {
        assert(spec_all_digits(s.drop_last()));
        lemma_digits_val_nonneg(s.drop_last());
        assert(spec_digits_val(s.drop_last()) * 10 >= 0) by (nonlinear_arith)
            requires
                spec_digits_val(s.drop_last()) >= 0,
        ;
    }
}

/// Parses the free-text relative offset into a month count.
pub fn extract_offset(input: &str) -> (r: Option<u32>)
    ensures
        r == spec_extract_offset(input@),
{
    proof {
        reveal_strlit("1 month");
        reveal_strlit(" months");
    }
    if str_eq(input, "1 month") {
        return Some(1);
    }
    let n: usize = input.unicode_len();
    if n < 8 {
        return None;
    }
    let ghost s: Seq<char> = input@;
    let suffix: &str = " months";
    let mut j: usize = 0;
    while j < 7
        invariant
            j <= 7,
            n >= 8,
            n == s.len(),
            s == input@,
            s != "1 month"@,
            suffix@ == " months"@,
            " months"@.len() == 7,
            forall|x: int| 0 <= x < j ==> s[n - 7 + x] == " months"@[x],
        decreases 7 - j,
    {
        if input.get_char(n - 7 + j) != suffix.get_char(j) {
            proof {
                assert(s.subrange(s.len() - 7, s.len() as int)[j as int] == s[n - 7 + j]);
            }
            return None;
        }
        j = j + 1;
    }
    proof {
        assert(s.subrange(n - 7, n as int) =~= " months"@);
    }
    let m: usize = n - 7;
    let ghost digits: Seq<char> = s.subrange(0, m as int);
    if input.get_char(0) == '0' {
        proof {
            assert(digits[0] == '0');
        }
        return None;
    }
    let mut i: usize = 0;
    let mut val: u32 = 0;
    let mut over: bool = false;
    while i < m
        invariant
            i <= m,
            m == n - 7,
            n == s.len(),
            s == input@,
            s != "1 month"@,
            digits == s.subrange(0, m as int),
            spec_all_digits(s.subrange(0, i as int)),
            !over ==> val == spec_digits_val(s.subrange(0, i as int)),
            over ==> spec_digits_val(s.subrange(0, i as int)) > u32::MAX,
        decreases m - i,
    {
        let c: char = input.get_char(i);
        let cu: u32 = c as u32;
        let ghost prefix: Seq<char> = s.subrange(0, i as int);
        let ghost prefix1: Seq<char> = s.subrange(0, i + 1);
        proof {
            assert(prefix1.drop_last() =~= prefix);
            assert(prefix1.last() == s[i as int]);
        }
        if cu < 48 || cu > 57 {
            proof {
                assert(digits[i as int] == s[i as int]);
                assert(!spec_is_digit(digits[i as int]));
            }
            return None;
        }
        let d: u32 = cu - 48;
        if over {
            proof {
                lemma_digits_val_nonneg(prefix);
                assert(spec_digits_val(prefix) * 10 > u32::MAX * 10) by (nonlinear_arith)
                    requires
                        spec_digits_val(prefix) > u32::MAX,
                ;
            }
        } else {
            let w: u64 = (val as u64) * 10 + (d as u64);
            if w > 0xffff_ffffu64 {
                over = true;
            } else {
                val = w as u32;
            }
        }
        i = i + 1;
    }
    proof {
        assert(s.subrange(0, i as int) =~= digits);
    }
    if !over && val < 2 {
        return None;
    }
    proof {
        assert(spec_plural_count(digits));
    }
    if over {
        Some(0)
    } else {
        Some(val)
    }
}

/// The source a page yields, judged against `today`: its `Link` URL
/// property, with the cutoff derived from the `Offset date` text property
/// by subtracting the parsed month count from `today`.
pub open spec fn spec_source_new(page: Page, today: Date) -> Option<Source> {
    match page.properties {
        None => None,
        Some(props) => {
            let link = match spec_get_property(props@, "Link"@) {
                Some(PropertyValue::Url { url: Some(u) }) => Some(u),
                _ => None,
            };
            let k = match spec_get_property(props@, "Offset date"@) {
                Some(PropertyValue::Text { rich_text }) => if rich_text@.len() > 0 {
                    match rich_text@[0] {
                        RichText::Text { rich_text: _, text } => match spec_extract_offset(
                            text.content@,
                        ) {
                            Some(v) => v,
                            None => 0,
                        },
                    }
                } else {
                    0
                },
                _ => 0,
            };
            let offset_date = if k > 0 {
                spec_sub_months(today, k)
            } else {
                None
            };
            match link {
                Some(l) => Some(Source { link: l, offset_date }),
                None => None,
            }
        },
    }
}

impl Source {
    /// Projects a page of the remote store onto a source, deriving the
    /// cutoff date from `today`.
    pub fn new(page: &Page, today: Date) -> (r: Option<Source>)
        requires
            today.wf(),
        ensures
            r == spec_source_new(*page, today),
            r matches Some(src) ==> src.wf(),
    {
        let properties = match &page.properties {
            Some(p) => p,
            None => {
                return None;
            },
        };
        let link: Option<String> = match get_property(properties, "Link") {
            Some(pv) => match pv {
                PropertyValue::Url { url } => match url {
                    Some(u) => Some(u.clone()),
                    None => None,
                },
                _ => None,
            },
            None => None,
        };
        let k: u32 = match get_property(properties, "Offset date") {
            Some(pv) => match pv {
                PropertyValue::Text { rich_text } => if rich_text.len() > 0 {
                    match &rich_text[0] {
                        RichText::Text { rich_text: _, text } => match extract_offset(
                            text.content.as_str(),
                        ) {
                            Some(v) => v,
                            None => 0,
                        },
                    }
                } else {
                    0
                },
                _ => 0,
            },
            None => 0,
        };
        let offset_date: Option<Date> = if k > 0 {
            today.sub_months(k)
        } else {
            None
        };
        match link {
            Some(l) => Some(Source { link: l, offset_date }),
            None => None,
        }
    }
}

} // verus!
