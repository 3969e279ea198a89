//! The synchronization core: cutoff filtering, flattening of per-source
//! outcomes, deduplication against persisted links, timestamp selection,
//! and the property bag of an item to persist.

use vstd::prelude::*;
use crate::dates::{Date, Timestamp};
use crate::entry::{CandidateEntry, SourceError, parse_feed, feed_parses, candidates_of, spec_plain_feed_bytes};
use crate::feed_item::{FeedItem, spec_feed_item_new};
use crate::notion::{Page, PropertyValue, RichText, Text, DateValue};
use crate::source::{Source, spec_source_new};
use crate::text::str_eq;

verus! {

/// An entry that survived filtering and is to be persisted.
#[derive(Debug)]
pub struct NewFeedItem {
    pub title: String,
    pub link: String,
    pub created_at: Timestamp,
    pub read: bool,
    pub starred: bool,
}

/// Whether an entry passes the cutoff: its date — `published` first,
/// `updated` as fallback — is on or after the cutoff; an entry with
/// neither date is kept; without a cutoff everything is kept.
pub open spec fn spec_keeps_entry(c: CandidateEntry, cutoff: Option<Date>) -> bool {
    match cutoff {
        None => true,
        Some(d) => match c.published {
            Some(p) => d.spec_le(p.date),
            None => match c.updated {
                Some(u) => d.spec_le(u.date),
                None => true,
            },
        },
    }
}

/// The cutoff filter as a predicate on entries.
pub open spec fn spec_keeps_pred(cutoff: Option<Date>) -> spec_fn(CandidateEntry) -> bool {
    |c: CandidateEntry| spec_keeps_entry(c, cutoff)
}

/// Whether the link is already among the existing links, compared by
/// characters.
pub open spec fn spec_link_known(l: String, existing: Seq<String>) -> bool {
    exists|i: int| 0 <= i < existing.len() && existing[i]@ == l@
}

/// The timestamp a retained entry is recorded with: `published` first,
/// `updated` second, the current instant as a last resort.
pub open spec fn spec_created_at(c: CandidateEntry, now: Timestamp) -> Timestamp {
    match c.published {
        Some(p) => p,
        None => match c.updated {
            Some(u) => u,
            None => now,
        },
    }
}

/// The item a candidate yields: nothing when it has no link, when its
/// primary link is already persisted, or when it has no title; otherwise a
/// fresh unread, unstarred item with the selected timestamp.
pub open spec fn spec_new_item(c: CandidateEntry, existing: Seq<String>, now: Timestamp) -> Option<
    NewFeedItem,
> {
    if c.links@.len() == 0 {
        None
    } else if spec_link_known(c.links@[0], existing) {
        None
    } else {
        match c.title {
            Some(t) => Some(
                NewFeedItem {
                    title: t,
                    link: c.links@[0],
                    created_at: spec_created_at(c, now),
                    read: false,
                    starred: false,
                },
            ),
            None => None,
        }
    }
}

/// The items a candidate batch yields, in order.
pub open spec fn spec_select(
    cands: Seq<CandidateEntry>,
    existing: Seq<String>,
    now: Timestamp,
) -> Seq<NewFeedItem>
    decreases cands.len(),
{
    if cands.len() == 0 {
        Seq::empty()
    } else {
        let rest = spec_select(cands.drop_last(), existing, now);
        match spec_new_item(cands.last(), existing, now) {
            Some(it) => rest.push(it),
            None => rest,
        }
    }
}

/// The candidates of the successful outcomes, flattened in order.
pub open spec fn spec_collect(
    outcomes: Seq<Result<Vec<CandidateEntry>, SourceError>>,
) -> Seq<CandidateEntry>
    decreases outcomes.len(),
{
    if outcomes.len() == 0 {
        Seq::empty()
    } else {
        let rest = spec_collect(outcomes.drop_last());
        match outcomes.last() {
            Ok(v) => rest + v@,
            Err(_) => rest,
        }
    }
}

/// The dedup set: the persisted items' links, in order.
pub open spec fn spec_feed_links(items: Seq<FeedItem>) -> Seq<String> {
    items.map_values(|it: FeedItem| it.link)
}

/// The sources the pages yield, judged against `today`, in order.
pub open spec fn spec_source_list(pages: Seq<Page>, today: Date) -> Seq<Source>
    decreases pages.len(),
{
    if pages.len() == 0 {
        Seq::empty()
    } else {
        let rest = spec_source_list(pages.drop_last(), today);
        match spec_source_new(pages.last(), today) {
            Some(s) => rest.push(s),
            None => rest,
        }
    }
}

/// The feed items the pages yield, in order.
pub open spec fn spec_feed_list(pages: Seq<Page>) -> Seq<FeedItem>
    decreases pages.len(),
{
    if pages.len() == 0 {
        Seq::empty()
    } else {
        let rest = spec_feed_list(pages.drop_last());
        match spec_feed_item_new(pages.last()) {
            Some(it) => rest.push(it),
            None => rest,
        }
    }
}

/// Decides membership of a link in the existing-link list.
pub fn link_in_list(existing: &Vec<String>, l: &String) -> (r: bool)
    ensures
        r == spec_link_known(*l, existing@),
{
    let n: usize = existing.len();
    let mut i: usize = 0;
    while i < n
        invariant
            i <= n,
            n == existing@.len(),
            forall|j: int| 0 <= j < i ==> existing@[j]@ != l@,
        decreases n - i,
    {
        if str_eq(existing[i].as_str(), l.as_str()) {
            return true;
        }
        i = i + 1;
    }
    false
}

/// Keeps the entries that pass the cutoff, in order.
pub fn filter_entries(entries: Vec<CandidateEntry>, cutoff: Option<Date>) -> (r: Vec<
    CandidateEntry,
>)
    ensures
        r@ == entries@.filter(spec_keeps_pred(cutoff)),
{
    let ghost orig: Seq<CandidateEntry> = entries@;
    let ghost pred = spec_keeps_pred(cutoff);
    let mut rest = entries;
    let mut out: Vec<CandidateEntry> = Vec::new();
    proof {
        assert(rest@ =~= orig.subrange(orig.len() - rest@.len(), orig.len() as int));
        assert(orig.subrange(0, 0) =~= Seq::<CandidateEntry>::empty());
        reveal(Seq::filter);
    }
    while rest.len() > 0
        invariant
            rest@.len() <= orig.len(),
            rest@ == orig.subrange(orig.len() - rest@.len(), orig.len() as int),
            out@ == orig.subrange(0, orig.len() - rest@.len()).filter(pred),
            pred == spec_keeps_pred(cutoff),
        decreases rest@.len(),
    {
        let ghost k: int = orig.len() - rest@.len();
        let c = rest.remove(0);
        proof {
            assert(c == orig[k]);
            assert(rest@ =~= orig.subrange(orig.len() - rest@.len(), orig.len() as int));
        }
        let keep: bool = match cutoff {
            None => true,
            Some(d) => match c.published {
                Some(p) => d.le(&p.date),
                None => match c.updated {
                    Some(u) => d.le(&u.date),
                    None => true,
                },
            },
        };
        let ghost cg: CandidateEntry = c;
        if keep {
            out.push(c);
        }
        proof {
            let prefix = orig.subrange(0, k);
            let prefix1 = orig.subrange(0, k + 1);
            assert(prefix1.drop_last() =~= prefix);
            assert(prefix1.last() == cg);
            reveal(Seq::filter);
            assert(keep == pred(cg));
            assert(out@ == prefix1.filter(pred));
        }
    }
    proof {
        assert(orig.subrange(0, orig.len() as int) =~= orig);
    }
    out
}

/// Flattens the successful outcomes' candidates, in order; failed sources
/// contribute nothing.
pub fn collect_candidates(outcomes: Vec<Result<Vec<CandidateEntry>, SourceError>>) -> (r: Vec<
    CandidateEntry,
>)
    ensures
        r@ == spec_collect(outcomes@),
{
    let ghost orig = outcomes@;
    let mut rest = outcomes;
    let mut all: Vec<CandidateEntry> = Vec::new();
    proof {
        assert(rest@ =~= orig.subrange(orig.len() - rest@.len(), orig.len() as int));
        assert(orig.subrange(0, 0) =~= Seq::<Result<Vec<CandidateEntry>, SourceError>>::empty());
    }
    while rest.len() > 0
        invariant
            rest@.len() <= orig.len(),
            rest@ == orig.subrange(orig.len() - rest@.len(), orig.len() as int),
            all@ == spec_collect(orig.subrange(0, orig.len() - rest@.len())),
        decreases rest@.len(),
    {
        let ghost k: int = orig.len() - rest@.len();
        let o = rest.remove(0);
        proof {
            assert(o == orig[k]);
            assert(rest@ =~= orig.subrange(orig.len() - rest@.len(), orig.len() as int));
        }
        let ghost og: Result<Vec<CandidateEntry>, SourceError> = o;
        match o {
            Ok(mut v) => {
                all.append(&mut v);
            },
            Err(_) => {},
        }
        proof {
            let prefix = orig.subrange(0, k);
            let prefix1 = orig.subrange(0, k + 1);
            assert(prefix1.drop_last() =~= prefix);
            assert(prefix1.last() == og);
            assert(all@ == spec_collect(prefix1));
        }
    }
    proof {
        assert(orig.subrange(0, orig.len() as int) =~= orig);
    }
    all
}

/// Selects the items to persist out of the candidate batch, in order.
pub fn select_new_items(cands: Vec<CandidateEntry>, existing: &Vec<String>, now: Timestamp) -> (r:
    Vec<NewFeedItem>)
    ensures
        r@ == spec_select(cands@, existing@, now),
{
    let ghost orig = cands@;
    let mut rest = cands;
    let mut out: Vec<NewFeedItem> = Vec::new();
    proof {
        assert(rest@ =~= orig.subrange(orig.len() - rest@.len(), orig.len() as int));
        assert(orig.subrange(0, 0) =~= Seq::<CandidateEntry>::empty());
    }
    while rest.len() > 0
        invariant
            rest@.len() <= orig.len(),
            rest@ == orig.subrange(orig.len() - rest@.len(), orig.len() as int),
            out@ == spec_select(orig.subrange(0, orig.len() - rest@.len()), existing@, now),
        decreases rest@.len(),
    {
        let ghost k: int = orig.len() - rest@.len();
        let c = rest.remove(0);
        let ghost cg: CandidateEntry = c;
        proof {
            assert(c == orig[k]);
            assert(rest@ =~= orig.subrange(orig.len() - rest@.len(), orig.len() as int));
            let prefix = orig.subrange(0, k);
            let prefix1 = orig.subrange(0, k + 1);
            assert(prefix1.drop_last() =~= prefix);
            assert(prefix1.last() == cg);
        }
        if c.links.len() > 0 {
            let link: String = c.links[0].clone();
            if !link_in_list(existing, &link) {
                let created_at: Timestamp = match c.published {
                    Some(p) => p,
                    None => match c.updated {
                        Some(u) => u,
                        None => now,
                    },
                };
                match c.title {
                    Some(t) => {
                        out.push(
                            NewFeedItem { title: t, link, created_at, read: false, starred: false },
                        );
                    },
                    None => {},
                }
            }
        }
    }
    proof {
        assert(orig.subrange(0, orig.len() as int) =~= orig);
    }
    out
}

/// The synchronization core. It owns no state: the loaded pages, fetched
/// documents and the clock come in as plain values, and the items to
/// persist go out as plain values.
pub struct Feed {}

impl Feed {
    pub fn new() -> (r: Feed) {
        Feed {  }
    }

    /// Projects the loaded source pages onto sources, judged against
    /// `today`; pages without a link yield no source.
    pub fn get_source_list(&self, pages: Vec<Page>, today: Date) -> (r: Vec<Source>)
        requires
            today.wf(),
        ensures
            r@ == spec_source_list(pages@, today),
            forall|i: int| 0 <= i < r@.len() ==> r@[i].wf(),
    {
        let ghost orig = pages@;
        let mut rest = pages;
        let mut out: Vec<Source> = Vec::new();
        proof {
            assert(rest@ =~= orig.subrange(orig.len() - rest@.len(), orig.len() as int));
            assert(orig.subrange(0, 0) =~= Seq::<Page>::empty());
        }
        while rest.len() > 0
            invariant
                today.wf(),
                rest@.len() <= orig.len(),
                rest@ == orig.subrange(orig.len() - rest@.len(), orig.len() as int),
                out@ == spec_source_list(orig.subrange(0, orig.len() - rest@.len()), today),
                forall|i: int| 0 <= i < out@.len() ==> out@[i].wf(),
            decreases rest@.len(),
        {
            let ghost k: int = orig.len() - rest@.len();
            let page = rest.remove(0);
            proof {
                assert(page == orig[k]);
                assert(rest@ =~= orig.subrange(orig.len() - rest@.len(), orig.len() as int));
                let prefix = orig.subrange(0, k);
                let prefix1 = orig.subrange(0, k + 1);
                assert(prefix1.drop_last() =~= prefix);
                assert(prefix1.last() == page);
            }
            match Source::new(&page, today) {
                Some(s) => {
                    out.push(s);
                },
                None => {},
            }
        }
        proof {
            assert(orig.subrange(0, orig.len() as int) =~= orig);
        }
        out
    }

    /// Projects the loaded feed pages onto the persisted feed items; pages
    /// without a link contribute nothing to the dedup set.
    pub fn get_feed_list(&self, pages: Vec<Page>) -> (r: Vec<FeedItem>)
        ensures
            r@ == spec_feed_list(pages@),
    {
        let ghost orig = pages@;
        let mut rest = pages;
        let mut out: Vec<FeedItem> = Vec::new();
        proof {
            assert(rest@ =~= orig.subrange(orig.len() - rest@.len(), orig.len() as int));
            assert(orig.subrange(0, 0) =~= Seq::<Page>::empty());
        }
        while rest.len() > 0
            invariant
                rest@.len() <= orig.len(),
                rest@ == orig.subrange(orig.len() - rest@.len(), orig.len() as int),
                out@ == spec_feed_list(orig.subrange(0, orig.len() - rest@.len())),
            decreases rest@.len(),
        {
            let ghost k: int = orig.len() - rest@.len();
            let page = rest.remove(0);
            proof {
                assert(page == orig[k]);
                assert(rest@ =~= orig.subrange(orig.len() - rest@.len(), orig.len() as int));
                let prefix = orig.subrange(0, k);
                let prefix1 = orig.subrange(0, k + 1);
                assert(prefix1.drop_last() =~= prefix);
                assert(prefix1.last() == page);
            }
            match FeedItem::new(&page) {
                Some(it) => {
                    out.push(it);
                },
                None => {},
            }
        }
        proof {
            assert(orig.subrange(0, orig.len() as int) =~= orig);
        }
        out
    }

    /// The dedup set of the persisted items: their links, in order.
    pub fn feed_links(&self, items: Vec<FeedItem>) -> (r: Vec<String>)
        ensures
            r@ == spec_feed_links(items@),
    {
        let ghost orig = items@;
        let mut rest = items;
        let mut out: Vec<String> = Vec::new();
        proof {
            assert(rest@ =~= orig.subrange(orig.len() - rest@.len(), orig.len() as int));
            assert(out@ =~= spec_feed_links(orig.subrange(0, 0)));
        }
        while rest.len() > 0
            invariant
                rest@.len() <= orig.len(),
                rest@ == orig.subrange(orig.len() - rest@.len(), orig.len() as int),
                out@ == spec_feed_links(orig.subrange(0, orig.len() - rest@.len())),
            decreases rest@.len(),
        {
            let ghost k: int = orig.len() - rest@.len();
            let it = rest.remove(0);
            proof {
                assert(it == orig[k]);
                assert(rest@ =~= orig.subrange(orig.len() - rest@.len(), orig.len() as int));
            }
            out.push(it.link);
            proof {
                assert(out@ =~= spec_feed_links(orig.subrange(0, k + 1)));
            }
        }
        proof {
            assert(orig.subrange(0, orig.len() as int) =~= orig);
        }
        out
    }

    /// Parses a fetched document and applies the source's cutoff filter.
    /// Succeeds exactly when the bytes lie in the plain subset the parser
    /// handles safely and form a valid feed, and then returns exactly the
    /// parsed entries that pass the cutoff, each well-formed.
    pub fn get_feed_items(source: &Source, bytes: &Vec<u8>) -> (r: Result<
        Vec<CandidateEntry>,
        SourceError,
    >)
        requires
            source.wf(),
        ensures
            r is Ok <==> (spec_plain_feed_bytes(bytes@) && feed_parses(bytes@)),
            r matches Err(e) ==> e == SourceError::Parse,
            r matches Ok(items) ==> items@ == candidates_of(bytes@).filter(
                spec_keeps_pred(source.offset_date),
            ),
            r matches Ok(items) ==> forall|i: int|
                0 <= i < items@.len() ==> items@[i].wf() && spec_keeps_entry(
                    items@[i],
                    source.offset_date,
                ),
    {
        let parsed = match parse_feed(bytes) {
            Ok(v) => v,
            Err(e) => {
                return Err(e);
            },
        };
        let ghost parsed_view = parsed@;
        let items = filter_entries(parsed, source.offset_date);
        proof {
            let pred = spec_keeps_pred(source.offset_date);
            lemma_filter_elements_wf(parsed_view, pred);
            assert forall|i: int| 0 <= i < items@.len() implies items@[i].wf() && spec_keeps_entry(
                items@[i],
                source.offset_date,
            ) by {
                parsed_view.lemma_filter_pred(pred, i);
            }
        }
        Ok(items)
    }

    /// Builds the property bag of one item to persist: title, link, unread
    /// and unstarred flags, and the selected timestamp as the start of the
    /// `Published At` date.
    pub fn add_feed_entry(&self, title: String, link: String, created_time: Timestamp) -> (r: Vec<
        (String, PropertyValue),
    >)
        ensures
            spec_entry_props(title, link, created_time, r@),
    {
        let mut title_vec: Vec<RichText> = Vec::new();
        title_vec.push(
            RichText::Text { rich_text: None, text: Text { content: title, link: None } },
        );
        let mut props: Vec<(String, PropertyValue)> = Vec::new();
        props.push((String::from_str("Title"), PropertyValue::Title { title: title_vec }));
        props.push((String::from_str("Link"), PropertyValue::Url { url: Some(link) }));
        props.push((String::from_str("Read"), PropertyValue::Checkbox { checkbox: false }));
        props.push((String::from_str("Starred"), PropertyValue::Checkbox { checkbox: false }));
        props.push(
            (
                String::from_str("Published At"),
                PropertyValue::Date {
                    date: Some(DateValue { start: Some(created_time), end: None }),
                },
            ),
        );
        props
    }

    /// One run's pure core: flatten the per-source outcomes, deduplicate
    /// against the persisted items' links, and select what to persist.
    pub fn run(
        &self,
        outcomes: Vec<Result<Vec<CandidateEntry>, SourceError>>,
        feed_list: Vec<FeedItem>,
        now: Timestamp,
    ) -> (r: Vec<NewFeedItem>)
        ensures
            r@ == spec_select(spec_collect(outcomes@), spec_feed_links(feed_list@), now),
    {
        let links = self.feed_links(feed_list);
        let cands = collect_candidates(outcomes);
        select_new_items(cands, &links, now)
    }
}

/// The property bag of one persisted item: exactly the five properties,
/// with the given title and link, both flags false, and the timestamp as
/// the date's start with no end.
pub open spec fn spec_entry_props(
    title: String,
    link: String,
    created_time: Timestamp,
    props: Seq<(String, PropertyValue)>,
) -> bool {
    &&& props.len() == 5
    &&& props[0].0@ == "Title"@
    &&& (props[0].1 matches PropertyValue::Title { title: t } && t@.len() == 1
        && (t@[0] matches RichText::Text { rich_text: rt, text } && rt is None
            && text.content == title && text.link is None))
    &&& props[1].0@ == "Link"@
    &&& (props[1].1 matches PropertyValue::Url { url: Some(u) } && u == link)
    &&& props[2].0@ == "Read"@
    &&& props[2].1 matches PropertyValue::Checkbox { checkbox: false }
    &&& props[3].0@ == "Starred"@
    &&& props[3].1 matches PropertyValue::Checkbox { checkbox: false }
    &&& props[4].0@ == "Published At"@
    &&& (props[4].1 matches PropertyValue::Date { date: Some(dv) } && dv.start == Some(created_time)
        && dv.end is None)
}

proof fn lemma_filter_elements_wf(s: Seq<CandidateEntry>, pred: spec_fn(CandidateEntry) -> bool)
    requires
        forall|i: int| 0 <= i < s.len() ==> s[i].wf(),
    ensures
        forall|j: int| 0 <= j < s.filter(pred).len() ==> s.filter(pred)[j].wf(),
    decreases s.len(),
{
    reveal(Seq::filter);
    if s.len() > 0 {
        assert(forall|i: int| 0 <= i < s.drop_last().len() ==> s.drop_last()[i].wf());
        lemma_filter_elements_wf(s.drop_last(), pred);
        let sub = s.drop_last().filter(pred);
        let out = s.filter(pred);
        assert forall|j: int| 0 <= j < out.len() implies out[j].wf() by {
            if pred(s.last()) {
                assert(out == sub.push(s.last()));
                if j < sub.len() {
                    assert(out[j] == sub[j]);
                } else {
                    assert(out[j] == s.last());
                    assert(s.last() == s[s.len() - 1]);
                }
            } else {
                assert(out == sub);
            }
        }
    }
}

/// A candidate whose `published` date equals the cutoff exactly passes the
/// filter: the boundary is inclusive.
pub proof fn lemma_cutoff_inclusive(c: CandidateEntry, d: Date)
    requires
        c.published matches Some(p) && p.date == d,
    ensures
        spec_keeps_entry(c, Some(d)),
{
}

/// A candidate with neither `published` nor `updated` is kept under every
/// cutoff.
pub proof fn lemma_undated_kept(c: CandidateEntry, cutoff: Option<Date>)
    requires
        c.published is None,
        c.updated is None,
    ensures
        spec_keeps_entry(c, cutoff),
{
}

/// Deduplication: no selected item carries a link that is already among
/// the existing links; a candidate whose primary link is persisted
/// contributes nothing, whatever its title and dates.
pub proof fn lemma_selected_links_new(
    cands: Seq<CandidateEntry>,
    existing: Seq<String>,
    now: Timestamp,
)
    ensures
        forall|j: int| 0 <= j < spec_select(cands, existing, now).len() ==> !spec_link_known(
            spec_select(cands, existing, now)[j].link,
            existing,
        ),
    decreases cands.len(),
{
    if cands.len() > 0 {
        lemma_selected_links_new(cands.drop_last(), existing, now);
        let rest = spec_select(cands.drop_last(), existing, now);
        let sel = spec_select(cands, existing, now);
        let c = cands.last();
        assert forall|j: int| 0 <= j < sel.len() implies !spec_link_known(sel[j].link, existing) by {
            match spec_new_item(c, existing, now) {
                Some(it) => {
                    assert(sel == rest.push(it));
                    if j < rest.len() {
                        assert(sel[j] == rest[j]);
                    } else {
                        assert(sel[j] == it);
                        assert(it.link == c.links@[0]);
                        assert(!spec_link_known(c.links@[0], existing));
                    }
                },
                None => {
                    assert(sel == rest);
                },
            }
        }
    }
}

/// Running the sync again selects nothing once every link selected by the
/// first run is part of the persisted set: with no new upstream entries,
/// the second run writes nothing.
pub proof fn lemma_rerun_selects_nothing(
    cands: Seq<CandidateEntry>,
    e1: Seq<String>,
    e2: Seq<String>,
    now1: Timestamp,
    now2: Timestamp,
)
    requires
        forall|l: String| spec_link_known(l, e1) ==> spec_link_known(l, e2),
        forall|j: int| 0 <= j < spec_select(cands, e1, now1).len() ==> spec_link_known(
            spec_select(cands, e1, now1)[j].link,
            e2,
        ),
    ensures
        spec_select(cands, e2, now2).len() == 0,
    decreases cands.len(),
{
    if cands.len() > 0 {
        let pre = cands.drop_last();
        let c = cands.last();
        let sel1pre = spec_select(pre, e1, now1);
        let sel1 = spec_select(cands, e1, now1);
        assert(forall|j: int| 0 <= j < sel1pre.len() ==> sel1pre[j] == sel1[j]);
        lemma_rerun_selects_nothing(pre, e1, e2, now1, now2);
        match spec_new_item(c, e2, now2) {
            Some(_) => {
                assert(c.links@.len() > 0);
                assert(!spec_link_known(c.links@[0], e2));
                if spec_link_known(c.links@[0], e1) {
                    assert(spec_link_known(c.links@[0], e2));
                } else {
                    match spec_new_item(c, e1, now1) {
                        Some(it1) => {
                            assert(sel1.last() == it1);
                            assert(spec_link_known(it1.link, e2));
                        },
                        None => {
                            assert(c.title is None);
                        },
                    }
                }
                assert(false);
            },
            None => {},
        }
    }
}

} // verus!
