//! The alert dispatcher: which channel to try next for one breach, and what
//! the result of a try means for that channel.
//!
//! The dispatcher decides; the caller delivers. After each try the caller
//! reports whether it succeeded, and asks for the next one. Channels are
//! independent: what is reported of one never changes another.

use vstd::prelude::*;
use crate::monitor::{AlertMethod, AlertMethodView};

verus! {

/// How often email and webhook deliveries are tried before they count as
/// failed.
pub const MAX_ATTEMPTS: u32 = 3;

/// The kind of a channel.
#[derive(Clone, Copy, Debug, PartialEq, Eq, Structural, Hash)]
pub enum ChannelKind {
    Stdout,
    Email,
    Webhook,
}

/// How far the delivery on one channel has come.
#[derive(Clone, Copy, Debug, PartialEq, Eq, Structural, Hash)]
pub enum Delivery {
    /// Not delivered yet; `attempts` tries have failed so far.
    Pending { attempts: u32 },
    Delivered,
    /// Given up after the last allowed try failed.
    Failed,
}

/// One channel of a dispatch.
#[derive(Clone, Copy, Debug, PartialEq, Eq, Structural, Hash)]
pub struct Channel {
    pub kind: ChannelKind,
    pub delivery: Delivery,
}

/// What the caller is to do next.
#[derive(Clone, Copy, Debug, PartialEq, Eq, Structural, Hash)]
pub enum DispatchAction {
    /// Try the channel at `channel`; this is try number `attempt`, from 1.
    Deliver { channel: usize, attempt: u32 },
    /// Every channel is delivered or failed.
    Finished,
}

/// The kind of a method.
pub open spec fn kind_of(method: AlertMethodView) -> ChannelKind {
    match method {
        AlertMethodView::Stdout => ChannelKind::Stdout,
        AlertMethodView::Email(_) => ChannelKind::Email,
        AlertMethodView::Webhook(_) => ChannelKind::Webhook,
    }
}

/// Some method is stdout.
pub open spec fn names_stdout(methods: Seq<AlertMethodView>) -> bool {
    exists|i: int| 0 <= i < methods.len() && #[trigger] methods[i] == AlertMethodView::Stdout
}

/// A channel on which nothing has been tried.
pub open spec fn fresh(kind: ChannelKind) -> Channel {
    Channel { kind, delivery: Delivery::Pending { attempts: 0 } }
}

/// The channels of a dispatch at its start: one for each method, in order,
/// behind a stdout channel where the methods name none.
pub open spec fn channels_of(methods: Seq<AlertMethodView>) -> Seq<Channel> {
    let listed = Seq::new(methods.len(), |i: int| fresh(kind_of(methods[i])));
    if names_stdout(methods) {
        listed
    } else {
        seq![fresh(ChannelKind::Stdout)] + listed
    }
}

/// The channel after a try was reported. Stdout is delivered whatever was
/// reported; another channel is delivered on success, pending again after a
/// failure that leaves tries, failed after the last. A channel that is no
/// longer pending stays as it is.
pub open spec fn reported(channel: Channel, delivered: bool) -> Channel {
    match channel.delivery {
        Delivery::Pending { attempts } => if delivered || channel.kind == ChannelKind::Stdout {
            Channel { delivery: Delivery::Delivered, ..channel }
        } else if attempts + 1 >= MAX_ATTEMPTS {
            Channel { delivery: Delivery::Failed, ..channel }
        } else {
            Channel { delivery: Delivery::Pending { attempts: (attempts + 1) as u32 }, ..channel }
        },
        _ => channel,
    }
}

/// The channels after a try on the channel `at` was reported.
pub open spec fn after_report(channels: Seq<Channel>, at: int, delivered: bool) -> Seq<Channel> {
    if 0 <= at < channels.len() {
        channels.update(at, reported(channels[at], delivered))
    } else {
        channels
    }
}

/// The first pending channel at or after `from`, or the number of channels.
pub open spec fn first_pending(channels: Seq<Channel>, from: int) -> int
    decreases channels.len() - from,
{
    if from >= channels.len() {
        channels.len() as int
    } else if channels[from].delivery is Pending {
        from
    } else {
        first_pending(channels, from + 1)
    }
}

/// What is to be done next: the first pending channel is tried.
pub open spec fn next_action(channels: Seq<Channel>) -> DispatchAction {
    let at = first_pending(channels, 0);
    if 0 <= at < channels.len() {
        DispatchAction::Deliver {
            channel: at as usize,
            attempt: (channels[at].delivery->attempts + 1) as u32,
        }
    } else {
        DispatchAction::Finished
    }
}

/// The tries that one channel may still see.
pub open spec fn tries_left(channel: Channel) -> int {
    match channel.delivery {
        Delivery::Pending { attempts } => if attempts < MAX_ATTEMPTS {
            MAX_ATTEMPTS - attempts
        } else {
            1
        },
        _ => 0,
    }
}

/// The tries that a dispatch may still see, over all its channels.
pub open spec fn total_tries_left(channels: Seq<Channel>) -> int
    decreases channels.len(),
{
    if channels.len() == 0 {
        0
    } else {
        total_tries_left(channels.drop_last()) + tries_left(channels.last())
    }
}

/// The delivery of one breach to the channels of a monitor.
pub struct Dispatch {
    channels: Vec<Channel>,
}

impl View for Dispatch {
    type V = Seq<Channel>;

    closed spec fn view(&self) -> Seq<Channel> {
        self.channels@
    }
}

fn method_kind(method: &AlertMethod) -> (kind: ChannelKind)
    ensures
        kind == kind_of(method@),
{
    match method {
        AlertMethod::Stdout => ChannelKind::Stdout,
        AlertMethod::Email(_) => ChannelKind::Email,
        AlertMethod::Webhook(_) => ChannelKind::Webhook,
    }
}

fn any_stdout(methods: &Vec<AlertMethod>) -> (r: bool)
    ensures
        r == names_stdout(Seq::new(methods@.len(), |i: int| methods@[i]@)),
{
    let ghost views = Seq::new(methods@.len(), |i: int| methods@[i]@);
    let mut i: usize = 0;
    while i < methods.len()
        invariant
            i <= methods@.len(),
            views == Seq::new(methods@.len(), |i: int| methods@[i]@),
            forall|j: int| 0 <= j < i ==> #[trigger] views[j] != AlertMethodView::Stdout,
        decreases methods@.len() - i,
    {
        if matches!(methods[i], AlertMethod::Stdout) {
            assert(views[i as int] == AlertMethodView::Stdout);
            return true;
        }
        assert(views[i as int] == methods@[i as int]@);
        i = i + 1;
    }
    false
}

impl Dispatch {
    /// The invariant of a dispatch: a pending channel has tries left.
    pub open spec fn well_formed(&self) -> bool {
        forall|i: int|
            0 <= i < self@.len() ==> ((#[trigger] self@[i]).delivery matches Delivery::Pending {
                attempts,
            } ==> attempts < MAX_ATTEMPTS)
    }

    /// Starts the delivery of a breach to the given methods. Stdout is always
    /// among the channels.
    pub fn begin(methods: &Vec<AlertMethod>) -> (dispatch: Dispatch)
        ensures
            dispatch@ == channels_of(Seq::new(methods@.len(), |i: int| methods@[i]@)),
            dispatch.well_formed(),
    {
        let ghost views = Seq::new(methods@.len(), |i: int| methods@[i]@);
        let ghost listed = Seq::new(views.len(), |i: int| fresh(kind_of(views[i])));
        let mut channels: Vec<Channel> = Vec::new();
        let named = any_stdout(methods);
        if !named {
            channels.push(
                Channel { kind: ChannelKind::Stdout, delivery: Delivery::Pending { attempts: 0 } },
            );
        }
        let ghost head = channels@;
        let mut i: usize = 0;
        while i < methods.len()
            invariant
                i <= methods@.len(),
                views == Seq::new(methods@.len(), |i: int| methods@[i]@),
                listed == Seq::new(views.len(), |i: int| fresh(kind_of(views[i]))),
                channels@ == head + listed.take(i as int),
            decreases methods@.len() - i,
        {
            let kind = method_kind(&methods[i]);
            channels.push(Channel { kind, delivery: Delivery::Pending { attempts: 0 } });
            assert(listed.take(i + 1) =~= listed.take(i as int).push(listed[i as int]));
            assert(channels@ =~= head + listed.take(i + 1));
            i = i + 1;
        }
        assert(listed.take(i as int) =~= listed);
        assert(channels@ =~= channels_of(views));
        Dispatch { channels }
    }

    /// The number of channels.
    pub fn len(&self) -> (n: usize)
        ensures
            n == self@.len(),
    {
        self.channels.len()
    }

    /// The channel at `at`.
    pub fn channel(&self, at: usize) -> (r: Option<Channel>)
        ensures
            r == if at < self@.len() {
                Some(self@[at as int])
            } else {
                None
            },
    {
        if at < self.channels.len() {
            Some(self.channels[at])
        } else {
            None
        }
    }

    /// What is to be done next: the first channel that is still pending is
    /// tried; with none left the dispatch is finished.
    pub fn next(&self) -> (action: DispatchAction)
        requires
            self.well_formed(),
        ensures
            action == next_action(self@),
    {
        let mut i: usize = 0;
        while i < self.channels.len()
            invariant
                i <= self.channels@.len(),
                self.well_formed(),
                first_pending(self@, 0) == first_pending(self@, i as int),
            decreases self.channels@.len() - i,
        {
            match self.channels[i].delivery {
                Delivery::Pending { attempts } => {
                    assert(self@[i as int].delivery == Delivery::Pending { attempts });
                    return DispatchAction::Deliver { channel: i, attempt: attempts + 1 };
                },
                _ => {},
            }
            i = i + 1;
        }
        DispatchAction::Finished
    }

    /// Takes note of the result of a try on the channel `at`. No other
    /// channel changes. A report on a channel that does not exist or is no
    /// longer pending changes nothing.
    pub fn report(&mut self, at: usize, delivered: bool)
        requires
            old(self).well_formed(),
        ensures
            final(self).well_formed(),
            final(self)@ == after_report(old(self)@, at as int, delivered),
    {
        if at >= self.channels.len() {
            return ;
        }
        let channel = self.channels[at];
        let delivery = match channel.delivery {
            Delivery::Pending { attempts } => {
                if delivered || matches!(channel.kind, ChannelKind::Stdout) {
                    Delivery::Delivered
                } else if attempts >= MAX_ATTEMPTS - 1 {
                    Delivery::Failed
                } else {
                    Delivery::Pending { attempts: attempts + 1 }
                }
            },
            other => other,
        };
        let ghost before = self@;
        self.channels.remove(at);
        self.channels.insert(at, Channel { kind: channel.kind, delivery });
        assert(self@ =~= after_report(before, at as int, delivered));
        assert forall|i: int| 0 <= i < self@.len() implies ((#[trigger] self@[i]).delivery matches Delivery::Pending {
            attempts,
        } ==> attempts < MAX_ATTEMPTS) by {
            if i != at {
                assert(self@[i] == before[i]);
            }
        }
    }

    /// Whether every channel is delivered or failed.
    pub fn is_finished(&self) -> (r: bool)
        requires
            self.well_formed(),
        ensures
            r == (next_action(self@) is Finished),
    {
        matches!(self.next(), DispatchAction::Finished)
    }
}

/// What is reported of one channel leaves every other channel as it was.
pub proof fn lemma_report_leaves_others(
    channels: Seq<Channel>,
    at: int,
    delivered: bool,
    other: int,
)
    requires
        0 <= other < channels.len(),
        other != at,
    ensures
        after_report(channels, at, delivered).len() == channels.len(),
        after_report(channels, at, delivered)[other] == channels[other],
{
}

/// A pending stdout channel is delivered by its first report, whatever was
/// reported of it and of the channels tried before or after.
pub proof fn lemma_stdout_is_delivered(channels: Seq<Channel>, at: int, delivered: bool)
    requires
        0 <= at < channels.len(),
        channels[at].kind == ChannelKind::Stdout,
        channels[at].delivery is Pending,
    ensures
        after_report(channels, at, delivered)[at].delivery == Delivery::Delivered,
{
}

/// A channel that is delivered or failed is never tried again.
pub proof fn lemma_settled_stays(channels: Seq<Channel>, at: int, delivered: bool, other: int)
    requires
        0 <= other < channels.len(),
        !(channels[other].delivery is Pending),
    ensures
        after_report(channels, at, delivered)[other] == channels[other],
{
}

/// The channel that is tried next is pending, and every channel before it is
/// settled.
pub proof fn lemma_next_is_first_pending(channels: Seq<Channel>, from: int)
    requires
        0 <= from <= channels.len(),
    ensures
        from <= first_pending(channels, from) <= channels.len(),
        first_pending(channels, from) < channels.len() ==> channels[first_pending(
            channels,
            from,
        )].delivery is Pending,
        forall|i: int|
            from <= i < first_pending(channels, from) ==> !((#[trigger] channels[i]).delivery
                is Pending),
    decreases channels.len() - from,
{
    if from < channels.len() && !(channels[from].delivery is Pending) {
        lemma_next_is_first_pending(channels, from + 1);
    }
}

/// Replacing one channel changes the tries that are left by the difference
/// on that channel.
pub proof fn lemma_total_tries_update(channels: Seq<Channel>, at: int, channel: Channel)
    requires
        0 <= at < channels.len(),
    ensures
        total_tries_left(channels.update(at, channel)) == total_tries_left(channels) - tries_left(
            channels[at],
        ) + tries_left(channel),
    decreases channels.len(),
{
    let changed = channels.update(at, channel);
    if at == channels.len() - 1 {
        assert(changed.drop_last() =~= channels.drop_last());
    } else {
        assert(changed.drop_last() =~= channels.drop_last().update(at, channel));
        lemma_total_tries_update(channels.drop_last(), at, channel);
    }
}

/// Every report on the channel that is tried next uses up at least one of
/// the tries that are left, so a dispatch over `n` channels is finished after
/// at most `MAX_ATTEMPTS * n` reports.
pub proof fn lemma_report_uses_a_try(channels: Seq<Channel>, delivered: bool)
    requires
        channels.len() <= usize::MAX,
        next_action(channels) is Deliver,
    ensures
        0 <= total_tries_left(after_report(channels, next_action(channels)->channel as int, delivered))
            < total_tries_left(channels),
{
    lemma_next_is_first_pending(channels, 0);
    let at = first_pending(channels, 0);
    lemma_total_tries_update(channels, at, reported(channels[at], delivered));
    lemma_total_tries_nonnegative(after_report(channels, at, delivered));
}

/// The tries that are left are never negative, and at most `MAX_ATTEMPTS`
/// for each channel.
pub proof fn lemma_total_tries_nonnegative(channels: Seq<Channel>)
    ensures
        0 <= total_tries_left(channels) <= MAX_ATTEMPTS * channels.len(),
    decreases channels.len(),
{
    if channels.len() > 0 {
        lemma_total_tries_nonnegative(channels.drop_last());
    }
}

} // verus!
