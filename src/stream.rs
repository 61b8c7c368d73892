//! Pull-based streams over an owned adapter: raw events, advertising-report
//! collections, and single advertising records. Each stream takes the adapter
//! by value and hands it back when the caller is done, so no command can run
//! while a stream is active.
use vstd::prelude::*;
use crate::adapter::{Adapter, LEAdapter};
use crate::codec::{EventPacket, EventView, event_result_view};
use crate::error::Error;
use crate::pipeline::{
    as_items, expand, filter_all, filter_meta_event, filtered_view, flatten, info_result_view,
    lemma_filter_all_push, lemma_flatten_append, lemma_flatten_items, meta_outcome,
};
use crate::report::{AdvertisingReport, ReportInfo, ReportView, reports_view};

verus! {

/// Every event the transport delivers, one read per pull. A failed read is
/// an item like any other, and the stream goes on.
pub struct HciEventStream<A: Adapter> {
    adapter: LEAdapter<A>,
}

/// The advertising-report collections among the delivered events.
pub struct AdvertisingReportStream<A: Adapter> {
    events: HciEventStream<A>,
}

/// The single advertising records of the delivered collections, in order.
pub struct AdvertisementStream<A: Adapter> {
    reports: AdvertisingReportStream<A>,
    pending: Vec<ReportInfo>,
    start: Ghost<nat>,
    emitted: Ghost<Seq<Result<ReportView, Error>>>,
}

pub open spec fn info_option_view(r: Option<Result<ReportInfo, Error>>) -> Option<Result<ReportView, Error>> {
    match r {
        Some(x) => Some(info_result_view(x)),
        None => None,
    }
}

/// The first item a filter outcome expands to, if any.
pub open spec fn first_item(o: Option<Result<Seq<ReportView>, Error>>) -> Option<Result<ReportView, Error>> {
    match o {
        Some(Ok(rs)) => if rs.len() > 0 {
            Some(Ok(rs[0]))
        } else {
            None
        },
        Some(Err(e)) => Some(Err(e)),
        None => None,
    }
}

/// The records a filter outcome leaves after its first item.
pub open spec fn remaining_records(o: Option<Result<Seq<ReportView>, Error>>) -> Seq<ReportView> {
    match o {
        Some(Ok(rs)) => if rs.len() > 0 {
            rs.drop_first()
        } else {
            Seq::empty()
        },
        _ => Seq::empty(),
    }
}

impl<A: Adapter> LEAdapter<A> {
    pub fn hci_event_stream(self) -> (r: HciEventStream<A>)
        ensures
            r.adapter() == self,
    {
        HciEventStream { adapter: self }
    }

    pub fn advertising_report_stream(self) -> (r: AdvertisingReportStream<A>)
        ensures
            r.adapter() == self,
    {
        AdvertisingReportStream { events: self.hci_event_stream() }
    }

    pub fn advertisement_stream(self) -> (r: AdvertisementStream<A>)
        ensures
            r.wf(),
            r.adapter() == self,
            r.emitted() == Seq::<Result<ReportView, Error>>::empty(),
            r.pending() == Seq::<ReportView>::empty(),
    {
        let ghost start = self.reads().len();
        let r = AdvertisementStream {
            reports: self.advertising_report_stream(),
            pending: Vec::new(),
            start: Ghost(start),
            emitted: Ghost(Seq::empty()),
        };
        assert(r.adapter().reads().skip(start as int) =~= Seq::<Result<EventView, Error>>::empty());
        assert(r.emitted() + expand(Ok(r.pending())) =~= Seq::<Result<ReportView, Error>>::empty());
        r
    }
}

impl<A: Adapter> HciEventStream<A> {
    pub closed spec fn adapter(&self) -> LEAdapter<A> {
        self.adapter
    }

    /// Reads the next event.
    pub fn next(&mut self) -> (r: Result<EventPacket, Error>)
        ensures
            final(self).adapter().reads() == old(self).adapter().reads().push(event_result_view(r)),
            final(self).adapter().writes() == old(self).adapter().writes(),
    {
        self.adapter.read_event()
    }

    /// Ends the stream and gives the adapter back.
    pub fn into_adapter(self) -> (r: LEAdapter<A>)
        ensures
            r == self.adapter(),
    {
        self.adapter
    }
}

impl<A: Adapter> AdvertisingReportStream<A> {
    pub closed spec fn adapter(&self) -> LEAdapter<A> {
        self.events.adapter()
    }

    /// Reads one event and runs it through the LE-Meta filter: `None` when
    /// the event was not an LE-Meta event and was dropped.
    pub fn pull(&mut self) -> (r: Option<Result<AdvertisingReport, Error>>)
        ensures
            final(self).adapter().reads().len() == old(self).adapter().reads().len() + 1,
            final(self).adapter().reads().drop_last() == old(self).adapter().reads(),
            filtered_view(r) == meta_outcome(final(self).adapter().reads().last()),
            final(self).adapter().writes() == old(self).adapter().writes(),
    {
        let ghost r0 = self.adapter().reads();
        let ev = self.events.next();
        assert(self.adapter().reads().drop_last() =~= r0);
        filter_meta_event(ev)
    }

    pub fn into_adapter(self) -> (r: LEAdapter<A>)
        ensures
            r == self.adapter(),
    {
        self.events.into_adapter()
    }
}

impl<A: Adapter> AdvertisementStream<A> {
    pub closed spec fn adapter(&self) -> LEAdapter<A> {
        self.reports.adapter()
    }

    /// How many reads the adapter had made when the stream began.
    pub closed spec fn start(&self) -> nat {
        self.start@
    }

    /// Every item the stream has handed out.
    pub closed spec fn emitted(&self) -> Seq<Result<ReportView, Error>> {
        self.emitted@
    }

    /// Records decoded but not yet handed out.
    pub closed spec fn pending(&self) -> Seq<ReportView> {
        reports_view(self.pending@)
    }

    /// The items handed out, followed by the pending records, are exactly the
    /// flattened, filtered events read since the stream began.
    pub open spec fn wf(&self) -> bool {
        &&& self.start() <= self.adapter().reads().len()
        &&& self.emitted() + expand(Ok(self.pending())) == flatten(
            filter_all(self.adapter().reads().skip(self.start() as int)),
        )
    }

    /// Hands out the next pending record, or else reads one event and hands
    /// out the first record or the error it yields: `None` when that event
    /// yields nothing.
    pub fn pull(&mut self) -> (r: Option<Result<ReportInfo, Error>>)
        requires
            old(self).wf(),
        ensures
            final(self).wf(),
            old(self).pending().len() > 0 ==> info_option_view(r) == Some(
                Ok::<ReportView, Error>(old(self).pending()[0]),
            ) && final(self).pending() == old(self).pending().drop_first() && final(self).adapter()
                == old(self).adapter(),
            old(self).pending().len() == 0 ==> final(self).adapter().reads().len() == old(
                self,
            ).adapter().reads().len() + 1 && final(self).adapter().reads().drop_last() == old(
                self,
            ).adapter().reads() && info_option_view(r) == first_item(
                meta_outcome(final(self).adapter().reads().last()),
            ) && final(self).pending() == remaining_records(
                meta_outcome(final(self).adapter().reads().last()),
            ),
            r is None ==> final(self).pending().len() == 0,
            final(self).emitted() == old(self).emitted() + as_items(info_option_view(r)),
            final(self).start() == old(self).start(),
            final(self).adapter().writes() == old(self).adapter().writes(),
    {
        let ghost e0 = self.emitted@;
        let ghost p0 = self.pending();
        if self.pending.len() > 0 {
            let first = self.pending.remove(0);
            self.emitted = Ghost(self.emitted@.push(Ok(first@)));
            assert(self.emitted() + expand(Ok(self.pending())) =~= e0 + expand(Ok(p0)));
            assert(as_items(info_option_view(Some(Ok(first)))) =~= seq![Ok::<ReportView, Error>(first@)]);
            return Some(Ok(first));
        }
        let ghost src0 = self.adapter().reads().skip(self.start() as int);
        assert(expand(Ok(p0)) =~= Seq::<Result<ReportView, Error>>::empty());
        assert(e0 =~= flatten(filter_all(src0)));
        let item = self.reports.pull();
        let ghost x = self.adapter().reads().last();
        assert(self.adapter().reads().skip(self.start() as int) =~= src0.push(x));
        proof {
            lemma_filter_all_push(src0, x);
            lemma_flatten_append(filter_all(src0), as_items(meta_outcome(x)));
            lemma_flatten_items(meta_outcome(x));
        }
        match item {
            None => {
                assert(e0 + expand(Ok(self.pending())) =~= e0 + Seq::<Result<ReportView, Error>>::empty());
                assert(as_items(info_option_view(None)) =~= Seq::<Result<ReportView, Error>>::empty());
                assert(e0 + as_items(info_option_view(None)) =~= e0);
                None
            },
            Some(Err(e)) => {
                self.emitted = Ghost(e0.push(Err(e)));
                assert(self.emitted() + expand(Ok(self.pending())) =~= e0 + seq![Err::<ReportView, Error>(e)]);
                assert(as_items(info_option_view(Some(Err(e)))) =~= seq![Err::<ReportView, Error>(e)]);
                Some(Err(e))
            },
            Some(Ok(rep)) => {
                let mut rs = rep.reports;
                if rs.len() == 0 {
                    assert(expand(Ok(reports_view(rs@))) =~= Seq::<Result<ReportView, Error>>::empty());
                    assert(as_items(info_option_view(None)) =~= Seq::<Result<ReportView, Error>>::empty());
                    assert(e0 + as_items(info_option_view(None)) =~= e0);
                    assert(e0 + expand(Ok(self.pending())) =~= e0 + expand(Ok(reports_view(rs@))));
                    None
                } else {
                    let ghost all = reports_view(rs@);
                    let first = rs.remove(0);
                    self.pending = rs;
                    self.emitted = Ghost(e0.push(Ok(first@)));
                    assert(self.emitted() + expand(Ok(self.pending())) =~= e0 + expand(Ok(all)));
                    assert(as_items(info_option_view(Some(Ok(first)))) =~= seq![Ok::<ReportView, Error>(first@)]);
                    Some(Ok(first))
                }
            },
        }
    }

    pub fn into_adapter(self) -> (r: LEAdapter<A>)
        ensures
            r == self.adapter(),
    {
        self.reports.into_adapter()
    }
}

} // verus!
