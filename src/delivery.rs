use vstd::prelude::*;
use vstd::string::StringExecFns;
use crate::dedup::{dedup_pass, lemma_dedup_pass};
use crate::filter::{excluded, is_blacklisted};
use crate::submission::{MalformedDetail, SubmissionData, SubmissionView, page_submission, parse_submission_text, strings_of};

verus! {

/// Takes in one fetched detail page: its record joins `kept` unless the page
/// is malformed or the record carries an excluded tag. Returns whether it
/// was kept.
pub fn take_detail(kept: &mut Vec<SubmissionData>, page: &str, blacklist: &[String]) -> (r: Result<bool, MalformedDetail>)
    ensures
        views_of(final(kept)@) == keep_step(views_of(old(kept)@), page@, strings_of(blacklist@)),
        match page_submission(page@) {
            Err(e) => r == Err::<bool, MalformedDetail>(e) && final(kept)@ == old(kept)@,
            Ok(v) => if excluded(v.tags, strings_of(blacklist@)) {
                r == Ok::<bool, MalformedDetail>(false) && final(kept)@ == old(kept)@
            } else {
                r == Ok::<bool, MalformedDetail>(true) && final(kept)@.drop_last() == old(kept)@
                    && final(kept)@.len() == old(kept)@.len() + 1 && final(kept)@.last()@ == v
            },
        },
{
    match parse_submission_text(page) {
        Err(e) => Err(e),
        Ok(d) => {
            if is_blacklisted(&d, blacklist) {
                Ok(false)
            } else {
                kept.push(d);
                assert(final(kept)@.drop_last() =~= old(kept)@);
                assert(views_of(final(kept)@) =~= views_of(old(kept)@).push(final(kept)@.last()@));
                Ok(true)
            }
        },
    }
}

/// The kept records after taking in one more detail page.
pub open spec fn keep_step(kept: Seq<SubmissionView>, page: Seq<char>, blacklist: Seq<Seq<char>>) -> Seq<SubmissionView> {
    match page_submission(page) {
        Ok(v) => if excluded(v.tags, blacklist) {
            kept
        } else {
            kept.push(v)
        },
        Err(_) => kept,
    }
}

/// The records kept from the detail pages of a cycle, taken in order.
pub open spec fn cycle_items(pages: Seq<Seq<char>>, blacklist: Seq<Seq<char>>) -> Seq<SubmissionView>
    decreases pages.len(),
{
    if pages.len() == 0 {
        seq![]
    } else {
        keep_step(cycle_items(pages.drop_last(), blacklist), pages.last(), blacklist)
    }
}

/// Each kept record beside the identifier whose page it came from, where
/// `pages[i]` is the page fetched for `batch[i]`.
pub open spec fn kept_sources(batch: Seq<i64>, pages: Seq<Seq<char>>, blacklist: Seq<Seq<char>>) -> Seq<(i64, SubmissionView)>
    decreases pages.len(),
{
    if pages.len() == 0 || batch.len() == 0 {
        seq![]
    } else {
        let prev = kept_sources(batch.drop_last(), pages.drop_last(), blacklist);
        match page_submission(pages.last()) {
            Ok(v) => if excluded(v.tags, blacklist) {
                prev
            } else {
                prev.push((batch.last(), v))
            },
            Err(_) => prev,
        }
    }
}

proof fn lemma_kept_sources(batch: Seq<i64>, pages: Seq<Seq<char>>, blacklist: Seq<Seq<char>>)
    requires
        pages.len() == batch.len(),
    ensures
        cycle_items(pages, blacklist) == kept_sources(batch, pages, blacklist).map_values(|p: (i64, SubmissionView)| p.1),
        forall|k: int| 0 <= k < kept_sources(batch, pages, blacklist).len()
            ==> batch.contains(#[trigger] kept_sources(batch, pages, blacklist)[k].0),
    decreases pages.len(),
{
    if pages.len() > 0 {
        let pb = batch.drop_last();
        lemma_kept_sources(pb, pages.drop_last(), blacklist);
        let prev = kept_sources(pb, pages.drop_last(), blacklist);
        let cur = kept_sources(batch, pages, blacklist);
        assert(cycle_items(pages, blacklist) =~= cur.map_values(|p: (i64, SubmissionView)| p.1));
        assert forall|k: int| 0 <= k < cur.len() implies batch.contains(#[trigger] cur[k].0) by {
            if k < prev.len() {
                assert(cur[k] == prev[k]);
                let i = choose|i: int| 0 <= i < pb.len() && pb[i] == prev[k].0;
                assert(batch[i] == pb[i]);
            } else {
                assert(cur[k].0 == batch[batch.len() - 1]);
            }
        }
    }
}

/// Over a whole cycle: the records that the cycle's messages carry (what
/// `take_detail` keeps from the pages fetched for the dedup batch) each came
/// from the page of an identifier that was listed and that the store had not
/// seen before the cycle. An identifier already seen is thus neither fetched
/// nor delivered again.
pub proof fn lemma_seen_never_delivered(
    ids: Seq<i64>,
    store: Set<i64>,
    pages: Seq<Seq<char>>,
    blacklist: Seq<Seq<char>>,
)
    requires
        pages.len() == dedup_pass(ids, store).0.len(),
    ensures
        cycle_items(pages, blacklist) == kept_sources(dedup_pass(ids, store).0, pages, blacklist).map_values(
            |p: (i64, SubmissionView)| p.1,
        ),
        forall|k: int| 0 <= k < kept_sources(dedup_pass(ids, store).0, pages, blacklist).len() ==> {
            let id = #[trigger] kept_sources(dedup_pass(ids, store).0, pages, blacklist)[k].0;
            ids.contains(id) && !store.contains(id)
        },
{
    lemma_dedup_pass(ids, store);
    lemma_kept_sources(dedup_pass(ids, store).0, pages, blacklist);
}

/// What is sent to a destination for one submission.
pub enum Payload {
    /// The submission's address, sent first.
    Link(String),
    /// A rich summary, sent once the link went through.
    Summary { title: String, description: String, author: String },
}

pub enum PayloadView {
    Link(Seq<char>),
    Summary { title: Seq<char>, description: Seq<char>, author: Seq<char> },
}

impl View for Payload {
    type V = PayloadView;

    open spec fn view(&self) -> PayloadView {
        match self {
            Payload::Link(u) => PayloadView::Link(u@),
            Payload::Summary { title, description, author } => PayloadView::Summary {
                title: title@,
                description: description@,
                author: author@,
            },
        }
    }
}

/// One message to send: a payload for a destination channel.
pub struct Delivery {
    pub channel: i64,
    pub payload: Payload,
}

pub struct DeliveryView {
    pub channel: i64,
    pub payload: PayloadView,
}

impl View for Delivery {
    type V = DeliveryView;

    open spec fn view(&self) -> DeliveryView {
        DeliveryView { channel: self.channel, payload: self.payload@ }
    }
}

pub open spec fn deliveries_of(v: Seq<Delivery>) -> Seq<DeliveryView> {
    v.map_values(|d: Delivery| d@)
}

pub open spec fn tag_separator() -> Seq<char> {
    seq![',', ' ']
}

pub open spec fn tags_label() -> Seq<char> {
    seq!['T', 'a', 'g', 's', ':', ' ']
}

pub open spec fn author_separator() -> Seq<char> {
    seq![' ', '-', ' ']
}

/// The parts joined with the separator between each two.
pub open spec fn join(parts: Seq<Seq<char>>, sep: Seq<char>) -> Seq<char>
    decreases parts.len(),
{
    if parts.len() == 0 {
        seq![]
    } else if parts.len() == 1 {
        parts[0]
    } else {
        join(parts.drop_last(), sep) + sep + parts.last()
    }
}

/// The two messages for one submission to one channel: the link, then the
/// summary with the tags joined and the artist beside the date.
pub open spec fn item_messages(channel: i64, item: SubmissionView) -> Seq<DeliveryView> {
    seq![
        DeliveryView { channel, payload: PayloadView::Link(item.url) },
        DeliveryView {
            channel,
            payload: PayloadView::Summary {
                title: item.title,
                description: tags_label() + join(item.tags, tag_separator()),
                author: item.artist + author_separator() + item.date,
            },
        },
    ]
}

/// The messages for one channel: each submission's pair, in order.
pub open spec fn channel_messages(channel: i64, items: Seq<SubmissionView>) -> Seq<DeliveryView>
    decreases items.len(),
{
    if items.len() == 0 {
        seq![]
    } else {
        channel_messages(channel, items.drop_last()) + item_messages(channel, items.last())
    }
}

/// Every message of a cycle: channel by channel, and within each channel
/// submission by submission.
pub open spec fn cycle_messages(channels: Seq<i64>, items: Seq<SubmissionView>) -> Seq<DeliveryView>
    decreases channels.len(),
{
    if channels.len() == 0 {
        seq![]
    } else {
        cycle_messages(channels.drop_last(), items) + channel_messages(channels.last(), items)
    }
}

/// Within one destination's messages, submission `i` has its link at `2 * i`
/// and its summary right after it.
pub proof fn lemma_channel_message_order(channel: i64, items: Seq<SubmissionView>)
    ensures
        channel_messages(channel, items).len() == 2 * items.len(),
        forall|i: int| 0 <= i < items.len() ==> {
            &&& #[trigger] channel_messages(channel, items)[2 * i] == item_messages(channel, items[i])[0]
            &&& channel_messages(channel, items)[2 * i + 1] == item_messages(channel, items[i])[1]
        },
    decreases items.len(),
{
    if items.len() > 0 {
        let pre = items.drop_last();
        lemma_channel_message_order(channel, pre);
        let whole = channel_messages(channel, items);
        let last = item_messages(channel, items.last());
        assert(whole == channel_messages(channel, pre) + last);
        let n = pre.len() as int;
        assert(whole[2 * n] == last[0]);
        assert(whole[2 * n + 1] == last[1]);
        assert forall|i: int| 0 <= i < items.len() implies {
            &&& #[trigger] channel_messages(channel, items)[2 * i] == item_messages(channel, items[i])[0]
            &&& channel_messages(channel, items)[2 * i + 1] == item_messages(channel, items[i])[1]
        } by {
            if i < pre.len() {
                assert(pre[i] == items[i]);
                assert(whole[2 * i] == channel_messages(channel, pre)[2 * i]);
                assert(whole[2 * i + 1] == channel_messages(channel, pre)[2 * i + 1]);
            } else {
                assert(i == n);
            }
        }
    }
}

/// A cycle's messages come destination by destination: destination `c`
/// has the block that starts at `c` times twice the number of submissions,
/// so every message of one destination is sent before any of a later one.
pub proof fn lemma_cycle_message_order(channels: Seq<i64>, items: Seq<SubmissionView>)
    ensures
        cycle_messages(channels, items).len() == channels.len() * (2 * items.len()),
        forall|c: int, k: int|
            0 <= c < channels.len() && 0 <= k < 2 * items.len() ==> #[trigger] cycle_messages(channels, items)[c * (2 * items.len()) + k]
                == #[trigger] channel_messages(channels[c], items)[k],
    decreases channels.len(),
{
    let m = 2 * items.len();
    if channels.len() > 0 {
        let pre = channels.drop_last();
        let n = pre.len();
        lemma_cycle_message_order(pre, items);
        lemma_channel_message_order(channels.last(), items);
        assert(n * m + m == channels.len() * m) by (nonlinear_arith)
            requires
                n + 1 == channels.len(),
        ;
        assert forall|c: int, k: int|
            0 <= c < channels.len() && 0 <= k < m implies #[trigger] cycle_messages(channels, items)[c * m + k]
                == #[trigger] channel_messages(channels[c], items)[k] by {
            if c < n {
                assert(c * m + k < n * m) by (nonlinear_arith)
                    requires
                        c < n,
                        0 <= k < m,
                ;
                assert(pre[c] == channels[c]);
            }
        }
    } else {
        assert(channels.len() * m == 0) by (nonlinear_arith)
            requires
                channels.len() == 0,
        ;
    }
}

pub open spec fn views_of(v: Seq<SubmissionData>) -> Seq<SubmissionView> {
    v.map_values(|d: SubmissionData| d@)
}

/// The tags joined by a comma and a space.
pub fn join_tags(tags: &Vec<String>) -> (r: String)
    ensures
        r@ == join(strings_of(tags@), tag_separator()),
{
    let sep = ", ";
    proof {
        reveal_strlit(", ");
    }
    let mut r = String::new();
    let mut i: usize = 0;
    while i < tags.len()
        invariant
            i <= tags@.len(),
            sep@ == tag_separator(),
            r@ == join(strings_of(tags@.subrange(0, i as int)), tag_separator()),
        decreases tags@.len() - i,
    {
        let ghost pre = strings_of(tags@.subrange(0, i as int));
        let ghost next = strings_of(tags@.subrange(0, i + 1));
        assert(next.drop_last() =~= pre);
        assert(next.last() == tags@[i as int]@);
        if i > 0 {
            r.append(sep);
        } else {
            assert(next.len() == 1);
            assert(r@ =~= Seq::<char>::empty());
        }
        r.append(tags[i].as_str());
        i = i + 1;
    }
    assert(tags@.subrange(0, tags@.len() as int) =~= tags@);
    r
}

fn item_pair(channel: i64, item: &SubmissionData) -> (r: (Delivery, Delivery))
    ensures
        seq![r.0@, r.1@] == item_messages(channel, item@),
{
    let label = "Tags: ";
    let dash = " - ";
    proof {
        reveal_strlit("Tags: ");
        reveal_strlit(" - ");
    }
    let description = String::from_str(label).concat(join_tags(&item.tags).as_str());
    let author = item.artist.clone().concat(dash).concat(item.date.as_str());
    assert(description@ =~= tags_label() + join(item@.tags, tag_separator()));
    assert(author@ =~= item@.artist + author_separator() + item@.date);
    let link = Delivery { channel, payload: Payload::Link(item.url.clone()) };
    let summary = Delivery {
        channel,
        payload: Payload::Summary { title: item.title.clone(), description, author },
    };
    (link, summary)
}

/// Lays out the messages of a cycle in the order they are sent: for each
/// destination in turn, each kept submission's link and then its summary.
pub fn delivery_plan(channels: &Vec<i64>, items: &Vec<SubmissionData>) -> (r: Vec<Delivery>)
    ensures
        deliveries_of(r@) == cycle_messages(channels@, views_of(items@)),
{
    let ghost all = views_of(items@);
    let mut r: Vec<Delivery> = Vec::new();
    let mut c: usize = 0;
    while c < channels.len()
        invariant
            c <= channels@.len(),
            all == views_of(items@),
            deliveries_of(r@) == cycle_messages(channels@.subrange(0, c as int), all),
        decreases channels@.len() - c,
    {
        let channel = channels[c];
        let ghost before = deliveries_of(r@);
        let mut i: usize = 0;
        while i < items.len()
            invariant
                c < channels@.len(),
                channel == channels@[c as int],
                i <= items@.len(),
                all == views_of(items@),
                deliveries_of(r@) == before + channel_messages(channel, all.subrange(0, i as int)),
            decreases items@.len() - i,
        {
            let (link, summary) = item_pair(channel, &items[i]);
            let ghost old_r = r@;
            r.push(link);
            r.push(summary);
            assert(all.subrange(0, i + 1).drop_last() =~= all.subrange(0, i as int));
            assert(deliveries_of(r@) =~= deliveries_of(old_r) + item_messages(channel, all[i as int]));
            i = i + 1;
        }
        assert(all.subrange(0, items@.len() as int) =~= all);
        assert(channels@.subrange(0, c + 1).drop_last() =~= channels@.subrange(0, c as int));
        c = c + 1;
    }
    assert(channels@.subrange(0, channels@.len() as int) =~= channels@);
    r
}

} // verus!
