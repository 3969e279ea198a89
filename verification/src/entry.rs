//! Candidate entries parsed out of a fetched feed document, and the
//! boundary to the feed-format parser.

use vstd::prelude::*;
use chrono::{Datelike, Timelike};
use crate::dates::{Date, Timestamp};

verus! {

/// Why one source contributed nothing: its document could not be fetched,
/// or the fetched bytes were not accepted as a feed.
#[derive(Clone, Copy, Debug, PartialEq, Eq, Structural)]
pub enum SourceError {
    Fetch,
    Parse,
}

/// One item parsed out of a feed document, not yet accepted or rejected:
/// its links (the first is primary), and optional title and timestamps.
#[derive(Debug)]
pub struct CandidateEntry {
    pub title: Option<String>,
    pub links: Vec<String>,
    pub published: Option<Timestamp>,
    pub updated: Option<Timestamp>,
}

impl CandidateEntry {
    /// Whatever timestamps an entry carries are well-formed instants.
    pub open spec fn wf(self) -> bool {
        &&& match self.published {
            Some(t) => t.wf(),
            None => true,
        }
        &&& match self.updated {
            Some(t) => t.wf(),
            None => true,
        }
    }
}

pub open spec fn spec_is_digit_byte(b: u8) -> bool {
    48 <= b <= 57
}

/// Sixteen consecutive digit bytes starting at `i`.
pub open spec fn spec_digit_run_at(bytes: Seq<u8>, i: int) -> bool {
    forall|j: int| i <= j < i + 16 ==> spec_is_digit_byte(#[trigger] bytes[j])
}

/// No byte at or before position `i` is `>`; such positions can only lie
/// inside a leading XML declaration.
pub open spec fn spec_in_decl_region(bytes: Seq<u8>, i: int) -> bool {
    forall|j: int| 0 <= j <= i ==> #[trigger] bytes[j] != 62
}

/// A byte pair that could belong to the name of an encoding under which
/// plain ASCII bytes decode to other characters: `16` (the UTF-16 family),
/// `uc`/`un` (the `ucs-2`/`unicode` aliases of UTF-16), in either case.
pub open spec fn spec_decl_pair_bad(a: u8, b: u8) -> bool {
    ||| (a == 49 && b == 54)
    ||| ((a == 117 || a == 85) && (b == 99 || b == 67))
    ||| ((a == 117 || a == 85) && (b == 110 || b == 78))
}

/// The byte quad `2022`, as in the ISO-2022 encodings.
pub open spec fn spec_decl_quad_bad(bytes: Seq<u8>, i: int) -> bool {
    bytes[i] == 50 && bytes[i + 1] == 48 && bytes[i + 2] == 50 && bytes[i + 3] == 50
}

/// No dangerous encoding name can be declared: before the first `>` — the
/// region a leading XML declaration can occupy — none of the bad pairs or
/// the ISO-2022 quad occurs.
pub open spec fn spec_decl_region_safe(bytes: Seq<u8>) -> bool {
    &&& forall|i: int|
        0 <= i && i + 1 < bytes.len() && spec_in_decl_region(bytes, i + 1)
            ==> !spec_decl_pair_bad(#[trigger] bytes[i], bytes[i + 1])
    &&& forall|i: int|
        0 <= i && i + 3 < bytes.len() && spec_in_decl_region(bytes, i + 3)
            ==> !spec_decl_quad_bad(bytes, i)
}

/// Bytes the feed parser handles without panicking: ASCII only (so no
/// multi-byte character can decode to a Unicode digit), no `&#` character
/// reference (which could synthesize digits), no `<!` markup and no `<?`
/// past the start (comments, CDATA and processing instructions would let
/// the parser stitch digit runs across them), a declaration region that
/// cannot name a UTF-16 or ISO-2022 encoding (under which ASCII bytes
/// decode to other characters), and no run of sixteen or more digits (so
/// every numeric capture fits the parser's 64-bit arithmetic).
pub open spec fn spec_plain_feed_bytes(bytes: Seq<u8>) -> bool {
    &&& forall|i: int| 0 <= i < bytes.len() ==> #[trigger] bytes[i] < 128
    &&& forall|i: int|
        0 <= i && i + 1 < bytes.len() ==> !(#[trigger] bytes[i] == 38 && bytes[i + 1] == 35)
    &&& forall|i: int|
        0 <= i && i + 1 < bytes.len() ==> !(#[trigger] bytes[i] == 60 && bytes[i + 1] == 33)
    &&& forall|i: int|
        1 <= i && i + 1 < bytes.len() ==> !(#[trigger] bytes[i] == 60 && bytes[i + 1] == 63)
    &&& spec_decl_region_safe(bytes)
    &&& forall|i: int| 0 <= i && i + 16 <= bytes.len() ==> !spec_digit_run_at(bytes, i)
}

/// Decides `spec_plain_feed_bytes`.
pub fn plain_feed_bytes(bytes: &Vec<u8>) -> (r: bool)
    ensures
        r == spec_plain_feed_bytes(bytes@),
{
    let n: usize = bytes.len();
    let mut i: usize = 0;
    while i < n
        invariant
            i <= n,
            n == bytes@.len(),
            forall|j: int| 0 <= j < i ==> #[trigger] bytes@[j] < 128,
        decreases n - i,
    {
        if bytes[i] >= 128 {
            return false;
        }
        i = i + 1;
    }
    if n > 0 {
        let mut gt_seen: bool = bytes[0] == 62;
        i = 1;
        while i < n
            invariant
                1 <= i <= n,
                n == bytes@.len(),
                gt_seen == !spec_in_decl_region(bytes@, i - 1),
                forall|j: int|
                    0 <= j && j + 1 < i ==> !(#[trigger] bytes@[j] == 38 && bytes@[j + 1] == 35),
                forall|j: int|
                    0 <= j && j + 1 < i ==> !(#[trigger] bytes@[j] == 60 && bytes@[j + 1] == 33),
                forall|j: int|
                    1 <= j && j + 1 < i ==> !(#[trigger] bytes@[j] == 60 && bytes@[j + 1] == 63),
                forall|j: int|
                    0 <= j && j + 1 < i && spec_in_decl_region(bytes@, j + 1)
                        ==> !spec_decl_pair_bad(#[trigger] bytes@[j], bytes@[j + 1]),
                forall|j: int|
                    0 <= j && j + 3 < i && spec_in_decl_region(bytes@, j + 3)
                        ==> !spec_decl_quad_bad(bytes@, j),
            decreases n - i,
        {
            let a: u8 = bytes[i - 1];
            let b: u8 = bytes[i];
            if a == 38 && b == 35 {
                return false;
            }
            if a == 60 && b == 33 {
                return false;
            }
            if i >= 2 && a == 60 && b == 63 {
                return false;
            }
            let gt_here: bool = gt_seen || b == 62;
            proof {
                if !gt_here {
                    assert forall|j: int| 0 <= j <= i implies bytes@[j] != 62 by {
                        if j < i {
                            assert(spec_in_decl_region(bytes@, i - 1));
                        }
                    }
                    assert(spec_in_decl_region(bytes@, i as int));
                }
            }
            if !gt_here {
                if (a == 49 && b == 54) || ((a == 117 || a == 85) && (b == 99 || b == 67)) || ((a
                    == 117 || a == 85) && (b == 110 || b == 78)) {
                    return false;
                }
                if i >= 3 && bytes[i - 3] == 50 && bytes[i - 2] == 48 && bytes[i - 1] == 50 && b
                    == 50 {
                    proof {
                        assert(spec_decl_quad_bad(bytes@, i - 3));
                        assert(!spec_decl_region_safe(bytes@));
                    }
                    return false;
                }
            }
            gt_seen = gt_here;
            i = i + 1;
        }
    }
    let mut run: usize = 0;
    i = 0;
    while i < n
        invariant
            i <= n,
            n == bytes@.len(),
            run <= i,
            run < 16,
            forall|j: int| i - run <= j < i ==> spec_is_digit_byte(#[trigger] bytes@[j]),
            run < i ==> !spec_is_digit_byte(bytes@[i - run - 1]),
            forall|k: int| 0 <= k && k + 16 <= i ==> !spec_digit_run_at(bytes@, k),
        decreases n - i,
    {
        let b: u8 = bytes[i];
        if 48 <= b && b <= 57 {
            run = run + 1;
            if run >= 16 {
                proof {
                    assert(spec_digit_run_at(bytes@, i + 1 - 16));
                }
                return false;
            }
        } else {
            run = 0;
        }
        proof {
            assert forall|k: int| 0 <= k && k + 16 <= i + 1 implies !spec_digit_run_at(
                bytes@,
                k,
            ) by {
                if k + 16 == i + 1 {
                    if spec_digit_run_at(bytes@, k) {
                        assert(spec_is_digit_byte(bytes@[i as int]));
                        assert(k <= i - run < k + 16);
                        assert(spec_is_digit_byte(bytes@[i - run]));
                    }
                }
            }
        }
        i = i + 1;
    }
    true
}

/// Whether the feed-format parser accepts the bytes as an RSS/Atom
/// document. The verdict depends on the bytes alone.
pub uninterp spec fn feed_parses(bytes: Seq<u8>) -> bool;

/// The candidate entries the feed-format parser yields from the bytes:
/// title, links in order, published and updated instants. These fields
/// depend on the bytes alone (the parser also invents missing entry IDs,
/// which are not carried over).
pub uninterp spec fn candidates_of(bytes: Seq<u8>) -> Seq<CandidateEntry>;

/// Relies on feed_rs::parser::parse: built with constant defaults, it
/// parses the bytes as an RSS/Atom document deterministically in the bytes
/// and yields the document's entries in order; the fields carried over come
/// from feed_rs's entry model through chrono's accessors, whose dates
/// always hold a month in 1..=12, a day valid for that month, a year within
/// chrono's supported range, and a second-of-day below 86400. The parser
/// unwraps 64-bit parses of digit captures in duration fields, so it can
/// panic on non-ASCII digits, digit runs beyond 64 bits, or markup that
/// synthesizes either; `spec_plain_feed_bytes` keeps all of those out.
#[verifier::external_body]
fn parse_feed_raw(bytes: &Vec<u8>) -> (r: Result<Vec<CandidateEntry>, SourceError>)
    requires
        spec_plain_feed_bytes(bytes@),
    ensures
        r is Ok <==> feed_parses(bytes@),
        r matches Ok(v) ==> v@ == candidates_of(bytes@),
        r matches Ok(v) ==> forall|i: int| 0 <= i < v@.len() ==> v@[i].wf(),
        r matches Err(e) ==> e == SourceError::Parse,
{
    let ts = |d: chrono::DateTime<chrono::Utc>| Timestamp {
        date: Date { year: d.year(), month: d.month(), day: d.day() },
        sec_of_day: d.num_seconds_from_midnight(),
    };
    match feed_rs::parser::parse(&bytes[..]) {
        Ok(f) => Ok(f.entries.into_iter().map(|e| CandidateEntry {
            title: e.title.map(|t| t.content),
            links: e.links.into_iter().map(|l| l.href).collect(),
            published: e.published.map(ts),
            updated: e.updated.map(ts),
        }).collect()),
        Err(_) => Err(SourceError::Parse),
    }
}

/// Parses fetched bytes into candidate entries. Bytes outside the plain
/// subset the parser is known to handle safely are rejected outright;
/// within it, parsing succeeds exactly when the feed-format parser accepts
/// the bytes, and then yields exactly the parser's entries, each carrying
/// well-formed timestamps.
pub fn parse_feed(bytes: &Vec<u8>) -> (r: Result<Vec<CandidateEntry>, SourceError>)
    ensures
        r is Ok <==> (spec_plain_feed_bytes(bytes@) && feed_parses(bytes@)),
        r matches Ok(entries) ==> entries@ == candidates_of(bytes@),
        r matches Ok(entries) ==> forall|i: int| 0 <= i < entries@.len() ==> entries@[i].wf(),
        r matches Err(e) ==> e == SourceError::Parse,
{
    if !plain_feed_bytes(bytes) {
        return Err(SourceError::Parse);
    }
    parse_feed_raw(bytes)
}

} // verus!
