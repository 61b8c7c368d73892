//! The observation pipeline as functions on values: the LE-Meta filter that
//! turns events into advertising-report collections, and the flattener that
//! turns collections into single records.
use vstd::prelude::*;
use crate::codec::{EventPacket, EventView, LE_META_EVENT, event_result_view};
use crate::error::Error;
use crate::report::{
    AdvertisingReport, ReportInfo, ReportView, advertising_report_of, decode_advertising_report,
    reports_view,
};

verus! {

pub open spec fn report_result_view(r: Result<AdvertisingReport, Error>) -> Result<Seq<ReportView>, Error> {
    match r {
        Ok(rep) => Ok(rep@),
        Err(e) => Err(e),
    }
}

pub open spec fn info_result_view(r: Result<ReportInfo, Error>) -> Result<ReportView, Error> {
    match r {
        Ok(info) => Ok(info@),
        Err(e) => Err(e),
    }
}

pub open spec fn filtered_view(r: Option<Result<AdvertisingReport, Error>>) -> Option<Result<Seq<ReportView>, Error>> {
    match r {
        Some(x) => Some(report_result_view(x)),
        None => None,
    }
}

pub open spec fn report_results_view(s: Seq<Result<AdvertisingReport, Error>>) -> Seq<Result<Seq<ReportView>, Error>> {
    s.map_values(|x: Result<AdvertisingReport, Error>| report_result_view(x))
}

pub open spec fn info_results_view(s: Seq<Result<ReportInfo, Error>>) -> Seq<Result<ReportView, Error>> {
    s.map_values(|x: Result<ReportInfo, Error>| info_result_view(x))
}

/// What the LE-Meta filter makes of one item of the event source: a read
/// error passes through; an event of another code is dropped; an LE-Meta
/// event yields its advertising records, or a decode error when its
/// parameters are not an advertising report.
pub open spec fn meta_outcome(ev: Result<EventView, Error>) -> Option<Result<Seq<ReportView>, Error>> {
    match ev {
        Err(e) => Some(Err(e)),
        Ok(ev) => if ev.event_code != LE_META_EVENT {
            None
        } else {
            match advertising_report_of(ev.parameters) {
                Ok(rs) => Some(Ok(rs)),
                Err(d) => Some(Err(Error::Decode(d))),
            }
        },
    }
}

/// The output of the LE-Meta filter over a whole sequence of source items.
pub open spec fn filter_all(evs: Seq<Result<EventView, Error>>) -> Seq<Result<Seq<ReportView>, Error>>
    decreases evs.len(),
{
    if evs.len() == 0 {
        Seq::empty()
    } else {
        let head = match meta_outcome(evs[0]) {
            Some(x) => seq![x],
            None => Seq::empty(),
        };
        head + filter_all(evs.drop_first())
    }
}

/// The items an optional value stands for: none or one.
pub open spec fn as_items<T>(o: Option<T>) -> Seq<T> {
    match o {
        Some(x) => seq![x],
        None => Seq::empty(),
    }
}

/// Filtering one more source item appends what that item yields.
pub proof fn lemma_filter_all_push(evs: Seq<Result<EventView, Error>>, ev: Result<EventView, Error>)
    ensures
        filter_all(evs.push(ev)) == filter_all(evs) + as_items(meta_outcome(ev)),
    decreases evs.len(),
{
    let s = evs.push(ev);
    if evs.len() == 0 {
        assert(s.drop_first() =~= Seq::<Result<EventView, Error>>::empty());
        assert(filter_all(s.drop_first()) == Seq::<Result<Seq<ReportView>, Error>>::empty());
        assert(filter_all(s) =~= filter_all(evs) + as_items(meta_outcome(ev)));
    } else {
        assert(s.drop_first() =~= evs.drop_first().push(ev));
        lemma_filter_all_push(evs.drop_first(), ev);
        assert(filter_all(s) =~= filter_all(evs) + as_items(meta_outcome(ev)));
    }
}

/// The single items one collection expands to: each record in order, or the
/// one error.
pub open spec fn expand(item: Result<Seq<ReportView>, Error>) -> Seq<Result<ReportView, Error>> {
    match item {
        Ok(rs) => rs.map_values(|r: ReportView| Ok::<ReportView, Error>(r)),
        Err(e) => seq![Err(e)],
    }
}

/// The flattener's output over a whole sequence of collections.
pub open spec fn flatten(items: Seq<Result<Seq<ReportView>, Error>>) -> Seq<Result<ReportView, Error>>
    decreases items.len(),
{
    if items.len() == 0 {
        Seq::empty()
    } else {
        flatten(items.drop_last()) + expand(items.last())
    }
}

/// Runs one item of the event source through the LE-Meta filter.
pub fn filter_meta_event(ev: Result<EventPacket, Error>) -> (r: Option<Result<AdvertisingReport, Error>>)
    ensures
        filtered_view(r) == meta_outcome(event_result_view(ev)),
{
    match ev {
        Err(e) => Some(Err(e)),
        Ok(ev) => {
            if ev.event_code != LE_META_EVENT {
                None
            } else {
                match decode_advertising_report(ev.parameters.as_slice()) {
                    Ok(rep) => Some(Ok(rep)),
                    Err(d) => Some(Err(Error::Decode(d))),
                }
            }
        },
    }
}

/// Appends each record of `rs`, in order, as a success item.
pub fn push_records(out: &mut Vec<Result<ReportInfo, Error>>, rs: Vec<ReportInfo>)
    ensures
        info_results_view(final(out)@) == info_results_view(old(out)@) + expand(
            Ok(reports_view(rs@)),
        ),
{
    let ghost all = rs@;
    let mut rs = rs;
    let n: usize = rs.len();
    let mut k: usize = 0;
    while rs.len() > 0
        invariant
            all.len() == n,
            k + rs@.len() == all.len(),
            rs@ == all.subrange(k as int, all.len() as int),
            info_results_view(out@) == info_results_view(old(out)@) + expand(
                Ok(reports_view(all.subrange(0, k as int))),
            ),
        decreases rs@.len(),
    {
        let ghost before = out@;
        let r = rs.remove(0);
        out.push(Ok(r));
        k = k + 1;
        assert(info_results_view(out@) =~= info_results_view(before).push(Ok(r@)));
        assert(expand(Ok(reports_view(all.subrange(0, k as int)))) =~= expand(
            Ok(reports_view(all.subrange(0, k - 1 as int))),
        ).push(Ok(r@)));
        assert(rs@ =~= all.subrange(k as int, all.len() as int));
    }
    assert(all.subrange(0, k as int) =~= all);
}

/// Expands a sequence of collections into one item per record, in order; an
/// error collection item becomes exactly one error item.
pub fn flatten_reports(items: Vec<Result<AdvertisingReport, Error>>) -> (r: Vec<Result<ReportInfo, Error>>)
    ensures
        info_results_view(r@) == flatten(report_results_view(items@)),
{
    let ghost all = items@;
    let mut items = items;
    let n: usize = items.len();
    let mut out: Vec<Result<ReportInfo, Error>> = Vec::new();
    let mut k: usize = 0;
    assert(info_results_view(out@) =~= flatten(report_results_view(all.subrange(0, 0))));
    while items.len() > 0
        invariant
            all.len() == n,
            k + items@.len() == all.len(),
            items@ == all.subrange(k as int, all.len() as int),
            info_results_view(out@) == flatten(report_results_view(all.subrange(0, k as int))),
        decreases items@.len(),
    {
        let item = items.remove(0);
        let ghost before = out@;
        match item {
            Ok(rep) => {
                push_records(&mut out, rep.reports);
            },
            Err(e) => {
                out.push(Err(e));
                assert(info_results_view(out@) =~= info_results_view(before).push(Err(e)));
                assert(expand(Err(e)) =~= seq![Err(e)]);
            },
        }
        k = k + 1;
        let ghost pre = report_results_view(all.subrange(0, k as int));
        assert(pre.drop_last() =~= report_results_view(all.subrange(0, k - 1 as int)));
        assert(pre.last() == report_result_view(item));
        assert(items@ =~= all.subrange(k as int, all.len() as int));
    }
    assert(all.subrange(0, k as int) =~= all);
    out
}

/// Flattening preserves order across collections: the output for a
/// concatenation of inputs is the concatenation of the outputs.
pub proof fn lemma_flatten_append(
    a: Seq<Result<Seq<ReportView>, Error>>,
    b: Seq<Result<Seq<ReportView>, Error>>,
)
    ensures
        flatten(a + b) == flatten(a) + flatten(b),
    decreases b.len(),
{
    if b.len() == 0 {
        assert(a + b =~= a);
        assert(flatten(a) + flatten(b) =~= flatten(a));
    } else {
        lemma_flatten_append(a, b.drop_last());
        assert((a + b).drop_last() =~= a + b.drop_last());
        assert((a + b).last() == b.last());
        assert(flatten(a) + flatten(b.drop_last()) + expand(b.last()) =~= flatten(a) + (flatten(
            b.drop_last(),
        ) + expand(b.last())));
    }
}

/// Flattening a single item gives what that item expands to.
pub proof fn lemma_flatten_one(item: Result<Seq<ReportView>, Error>)
    ensures
        flatten(seq![item]) == expand(item),
{
    let items = seq![item];
    assert(items.drop_last() =~= Seq::<Result<Seq<ReportView>, Error>>::empty());
    assert(flatten(items.drop_last()) == Seq::<Result<ReportView, Error>>::empty());
    assert(flatten(items) =~= expand(item));
}

/// Flattening what one source item yields gives what it expands to, or nothing.
pub proof fn lemma_flatten_items(o: Option<Result<Seq<ReportView>, Error>>)
    ensures
        flatten(as_items(o)) == match o {
            Some(item) => expand(item),
            None => Seq::empty(),
        },
{
    match o {
        Some(item) => lemma_flatten_one(item),
        None => {
            assert(flatten(as_items(o)) == Seq::<Result<ReportView, Error>>::empty());
        },
    }
}

/// A collection of records R1..Rn flattens to exactly R1..Rn, in order, each
/// as a success item, with nothing lost or repeated.
pub proof fn lemma_flatten_collection(rs: Seq<ReportView>)
    requires
        rs.len() >= 1,
    ensures
        flatten(seq![Ok(rs)]).len() == rs.len(),
        forall|i: int| 0 <= i < rs.len() ==> flatten(seq![Ok(rs)])[i] == Ok::<ReportView, Error>(rs[i]),
{
    let items = seq![Ok::<Seq<ReportView>, Error>(rs)];
    assert(items.drop_last() =~= Seq::<Result<Seq<ReportView>, Error>>::empty());
    assert(flatten(items.drop_last()) == Seq::<Result<ReportView, Error>>::empty());
    assert(flatten(items) =~= expand(Ok(rs)));
}

/// An error item of the filter expands to exactly one error item.
pub proof fn lemma_flatten_error(e: Error)
    ensures
        flatten(seq![Err(e)]) == seq![Err::<ReportView, Error>(e)],
{
    let items = seq![Err::<Seq<ReportView>, Error>(e)];
    assert(items.drop_last() =~= Seq::<Result<Seq<ReportView>, Error>>::empty());
    assert(flatten(items.drop_last()) == Seq::<Result<ReportView, Error>>::empty());
    assert(flatten(items) =~= seq![Err::<ReportView, Error>(e)]);
}

/// An event whose code is not LE-Meta produces no item, whatever follows it.
pub proof fn lemma_non_meta_event_dropped(ev: EventView, rest: Seq<Result<EventView, Error>>)
    requires
        ev.event_code != LE_META_EVENT,
    ensures
        meta_outcome(Ok(ev)) is None,
        filter_all(seq![Ok(ev)] + rest) == filter_all(rest),
{
    let evs = seq![Ok::<EventView, Error>(ev)] + rest;
    assert(evs.drop_first() =~= rest);
    assert(filter_all(evs) =~= Seq::<Result<Seq<ReportView>, Error>>::empty() + filter_all(rest));
}

/// An LE-Meta event whose parameters are no advertising report yields exactly
/// one decode error, and the items after it come out as they would alone.
pub proof fn lemma_malformed_meta_event(ev: EventView, rest: Seq<Result<EventView, Error>>)
    requires
        ev.event_code == LE_META_EVENT,
        advertising_report_of(ev.parameters) is Err,
    ensures
        filter_all(seq![Ok(ev)] + rest) == seq![
            Err::<Seq<ReportView>, Error>(Error::Decode(advertising_report_of(ev.parameters)->Err_0))
        ] + filter_all(rest),
{
    let evs = seq![Ok::<EventView, Error>(ev)] + rest;
    assert(evs.drop_first() =~= rest);
    assert(evs[0] == Ok::<EventView, Error>(ev));
}

} // verus!
