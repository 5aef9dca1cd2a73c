pub mod widget;
pub mod window;

pub use widget::Widget;
pub use window::{Event, Window};

use vstd::prelude::*;
use window::{decode, decode_spec, DecodeError, Endian, EventIterator, Request, WindowView};

verus! {

/// The deliveries that dispatching `event` to the first `count` widgets makes:
/// one to each, in the order in which they were attached. A delivery is the
/// position of the widget and the event handed to it.
pub open spec fn fan_out(count: int, event: Event) -> Seq<(int, Event)> {
    Seq::new(count as nat, |position: int| (position, event))
}

/// The deliveries that one step of a running shell makes for what the decoder
/// yielded: a decoded event goes to every widget, anything else to none.
pub open spec fn step_deliveries(count: int, item: Option<Result<Event, DecodeError>>) -> Seq<
    (int, Event),
> {
    match item {
        Some(Ok(event)) => fan_out(count, event),
        _ => Seq::empty(),
    }
}

/// The messages of a recorded session as contracts see them.
pub open spec fn bytes_of(messages: Seq<Vec<u8>>) -> Seq<Seq<u8>> {
    Seq::new(messages.len(), |i: int| messages[i]@)
}

/// The messages that a run on a recorded session gets to: all of them, or
/// the first alone where the shell had been asked to close before the run.
pub open spec fn reached(closing: bool, messages: Seq<Seq<u8>>) -> Seq<Seq<u8>> {
    if closing && messages.len() > 1 {
        messages.take(1)
    } else {
        messages
    }
}

/// The deliveries that a shell of `count` widgets makes for `messages`, each
/// of them dispatched in turn.
pub open spec fn deliveries_for(count: int, order: Endian, messages: Seq<Seq<u8>>) -> Seq<
    (int, Event),
>
    decreases messages.len(),
{
    if messages.len() == 0 {
        Seq::empty()
    } else {
        deliveries_for(count, order, messages.drop_last()) + step_deliveries(
            count,
            Some(decode_spec(messages.last(), order)),
        )
    }
}

/// The errors that decoding `messages` in turn reports.
pub open spec fn errors_for(order: Endian, messages: Seq<Seq<u8>>) -> Seq<DecodeError>
    decreases messages.len(),
{
    if messages.len() == 0 {
        Seq::empty()
    } else {
        let earlier = errors_for(order, messages.drop_last());
        match decode_spec(messages.last(), order) {
            Ok(_) => earlier,
            Err(error) => earlier.push(error),
        }
    }
}

/// What a run on a recorded session hands back.
pub struct Outcome {
    /// The requests to send to the server, oldest first.
    pub requests: Vec<Request>,
    /// The error of each malformed message that the run got to, oldest first.
    pub malformed: Vec<DecodeError>,
}

/// The application shell: one window, the widgets attached to it, and the loop
/// state. The shell does no input or output itself: it hands out the requests
/// to send and is handed each message that arrives.
pub struct App {
    window: Window,
    widgets: Vec<Box<dyn Widget>>,
    should_close: bool,
    running: bool,
    delivered: Ghost<Seq<(int, Event)>>,
}

impl App {
    /// The shell's window.
    pub closed spec fn window(&self) -> WindowView {
        self.window@
    }

    /// The attached widgets, in the order of attachment: the widget attached
    /// first has position 0.
    pub closed spec fn attached(&self) -> Seq<Box<dyn Widget>> {
        self.widgets@
    }

    /// How many widgets are attached.
    pub open spec fn widget_count(&self) -> int {
        self.attached().len() as int
    }

    /// Whether `close` has been called.
    pub closed spec fn closing(&self) -> bool {
        self.should_close
    }

    /// Whether the loop is running: started, and neither closed nor at the
    /// end of the session.
    pub closed spec fn running(&self) -> bool {
        self.running
    }

    /// The record that the shell keeps of the deliveries it makes, oldest
    /// first: the position of the widget and the event handed to it. The shell
    /// extends the record beside each call of `handle`; the record is all that
    /// contracts say of those calls.
    pub closed spec fn delivered(&self) -> Seq<(int, Event)> {
        self.delivered@
    }

    /// A shell around `window`, with no widget, not closing and not running.
    pub fn new(window: Window) -> (app: App)
        ensures
            app.window() == window@,
            app.attached() == Seq::<Box<dyn Widget>>::empty(),
            app.widget_count() == 0,
            !app.closing(),
            !app.running(),
            app.delivered() == Seq::<(int, Event)>::empty(),
    {
        App {
            window,
            widgets: Vec::new(),
            should_close: false,
            running: false,
            delivered: Ghost(Seq::empty()),
        }
    }

    /// Attaches `widget` behind those already attached.
    pub fn attach(&mut self, widget: Box<dyn Widget>)
        ensures
            final(self).attached() == old(self).attached().push(widget),
            final(self).widget_count() == old(self).widget_count() + 1,
            final(self).window() == old(self).window(),
            final(self).closing() == old(self).closing(),
            final(self).running() == old(self).running(),
            final(self).delivered() == old(self).delivered(),
    {
        self.widgets.push(widget);
        proof {
            vstd::seq::axiom_seq_push_len(old(self).widgets@, widget);
        }
    }

    /// Asks the loop to stop. Nothing else changes: the loop looks at the
    /// request only after it has dispatched the next message.
    pub fn close(&mut self)
        ensures
            final(self).closing(),
            final(self).attached() == old(self).attached(),
            final(self).window() == old(self).window(),
            final(self).running() == old(self).running(),
            final(self).delivered() == old(self).delivered(),
    {
        self.should_close = true;
    }

    /// Whether the loop is running.
    pub fn is_running(&self) -> (running: bool)
        ensures
            running == self.running(),
    {
        self.running
    }

    /// Starts the loop: maps the window and hands out the requests to send to
    /// the server, oldest first.
    pub fn start(&mut self) -> (batch: Vec<Request>)
        ensures
            final(self).running(),
            batch@ == old(self).window().pending.push(
                Request::MapWindow(old(self).window().id),
            ),
            final(self).window() == (WindowView {
                pending: Seq::empty(),
                ..old(self).window()
            }),
            final(self).attached() == old(self).attached(),
            final(self).closing() == old(self).closing(),
            final(self).delivered() == old(self).delivered(),
    {
        let batch = self.window.map_and_flush();
        self.running = true;
        batch
    }

    /// Hands `event` to every attached widget, in the order of attachment.
    fn dispatch(&mut self, event: &Event)
        ensures
            final(self).delivered@ == old(self).delivered@ + fan_out(
                old(self).widgets@.len() as int,
                *event,
            ),
            final(self).widgets == old(self).widgets,
            final(self).window == old(self).window,
            final(self).should_close == old(self).should_close,
            final(self).running == old(self).running,
    {
        let count: usize = self.widgets.len();
        let mut position: usize = 0;
        while position < count
            invariant
                position <= count,
                count == self.widgets@.len(),
                self.delivered@ == old(self).delivered@ + fan_out(position as int, *event),
                self.widgets == old(self).widgets,
                self.window == old(self).window,
                self.should_close == old(self).should_close,
                self.running == old(self).running,
            decreases count - position,
        {
            self.widgets[position].handle(event);
            proof {
                assert(fan_out(position as int, *event).push((position as int, *event))
                    =~= fan_out(position as int + 1, *event));
            }
            self.delivered = Ghost(self.delivered@.push((position as int, *event)));
            position += 1;
        }
    }

    /// One turn of the loop, for what the session delivered next: a message,
    /// or its end (`None`).
    ///
    /// A shell that is not running ignores what it is given and yields `None`.
    /// A running shell decodes the message. An event is handed, unchanged, to
    /// every widget in the order of attachment, also when `close` has been
    /// called; a malformed message is handed to none and reported. Only then
    /// the shell looks at the request to close, and stops if there is one. At
    /// the end of the session it stops without calling any widget.
    pub fn step(&mut self, message: Option<&[u8]>) -> (item: Option<Result<Event, DecodeError>>)
        ensures
            item == EventIterator::item(
                !old(self).running(),
                old(self).window().order,
                match message {
                    None => None,
                    Some(bytes) => Some(bytes@),
                },
            ),
            final(self).delivered() == old(self).delivered() + step_deliveries(
                old(self).widget_count(),
                item,
            ),
            final(self).running() == (message is Some && old(self).running() && !old(self).closing()),
            final(self).attached() == old(self).attached(),
            final(self).window() == old(self).window(),
            final(self).closing() == old(self).closing(),
    {
        if !self.running {
            return None;
        }
        match message {
            None => {
                self.running = false;
                None
            },
            Some(bytes) => {
                let decoded = decode(bytes, self.window.byte_order());
                match decoded {
                    Ok(event) => {
                        self.dispatch(&event);
                    },
                    Err(_) => {},
                }
                if self.should_close {
                    self.running = false;
                }
                Some(decoded)
            },
        }
    }

    /// Runs the loop on a recorded session: `messages` in turn, then the end
    /// of the session.
    ///
    /// The window is mapped first. Then each message is decoded and dispatched
    /// as [`App::step`] does it. A shell that had been asked to close before
    /// the run stops after the first message; any other goes through all of
    /// them. Either way the shell is stopped afterwards.
    pub fn run(&mut self, messages: &Vec<Vec<u8>>) -> (outcome: Outcome)
        ensures
            !final(self).running(),
            outcome.requests@ == old(self).window().pending.push(
                Request::MapWindow(old(self).window().id),
            ),
            outcome.malformed@ == errors_for(
                old(self).window().order,
                reached(old(self).closing(), bytes_of(messages@)),
            ),
            final(self).delivered() == old(self).delivered() + deliveries_for(
                old(self).widget_count(),
                old(self).window().order,
                reached(old(self).closing(), bytes_of(messages@)),
            ),
            final(self).window() == (WindowView {
                pending: Seq::empty(),
                ..old(self).window()
            }),
            final(self).attached() == old(self).attached(),
            final(self).closing() == old(self).closing(),
    {
        let requests = self.start();
        let mut malformed: Vec<DecodeError> = Vec::new();
        let ghost all = bytes_of(messages@);
        let ghost order = self.window().order;
        let mut next: usize = 0;
        while next < messages.len() && self.running
            invariant
                next <= messages@.len(),
                all == bytes_of(messages@),
                order == self.window().order,
                self.running() == (next == 0 || !self.closing()),
                self.closing() ==> next <= 1,
                malformed@ == errors_for(order, all.take(next as int)),
                self.delivered() == old(self).delivered() + deliveries_for(
                    self.widget_count(),
                    order,
                    all.take(next as int),
                ),
                self.window() == (WindowView { pending: Seq::empty(), ..old(self).window() }),
                self.attached() == old(self).attached(),
                self.closing() == old(self).closing(),
            decreases messages@.len() - next,
        {
            let item = self.step(Some(messages[next].as_slice()));
            proof {
                let longer = all.take(next as int + 1);
                assert(longer.drop_last() =~= all.take(next as int));
                assert(longer.last() == messages@[next as int]@);
            }
            match item {
                Some(Err(error)) => {
                    malformed.push(error);
                },
                _ => {},
            }
            next += 1;
        }
        proof {
            assert(all.take(next as int) =~= reached(self.closing(), all));
        }
        if self.running {
            self.step(None);
        }
        Outcome { requests, malformed }
    }
}

/// A shell that was asked to close before it got to the first message of a
/// session still hands that message to every widget, and no later one to any.
pub proof fn lemma_close_spares_one_message(count: int, order: Endian, messages: Seq<Seq<u8>>)
    requires
        messages.len() > 0,
    ensures
        deliveries_for(count, order, reached(true, messages)) == step_deliveries(
            count,
            Some(decode_spec(messages[0], order)),
        ),
{
    let first = messages.take(1);
    assert(reached(true, messages) =~= first);
    assert(first.drop_last() =~= Seq::<Seq<u8>>::empty());
    assert(deliveries_for(count, order, first.drop_last()) =~= Seq::<(int, Event)>::empty());
    assert(deliveries_for(count, order, first) =~= step_deliveries(
        count,
        Some(decode_spec(first.last(), order)),
    ));
}

/// Dispatching well-formed messages to `count` widgets makes `count`
/// deliveries for each message.
pub proof fn lemma_deliveries_len(count: int, order: Endian, messages: Seq<Seq<u8>>)
    requires
        0 <= count,
        forall|i: int| 0 <= i < messages.len() ==> decode_spec(#[trigger] messages[i], order) is Ok,
    ensures
        deliveries_for(count, order, messages).len() == count * messages.len(),
    decreases messages.len(),
{
    if messages.len() > 0 {
        let earlier = messages.drop_last();
        assert forall|i: int| 0 <= i < earlier.len() implies decode_spec(
            #[trigger] earlier[i],
            order,
        ) is Ok by {
            assert(earlier[i] == messages[i]);
        }
        lemma_deliveries_len(count, order, earlier);
        assert(decode_spec(messages[messages.len() - 1], order) is Ok);
        assert(count * (messages.len() - 1) + count == count * messages.len())
            by (nonlinear_arith);
    } else {
        assert(count * 0 == 0) by (nonlinear_arith);
    }
}

/// Every widget receives every event, in the order of attachment: of the
/// deliveries made for well-formed messages, those for message `k` stand
/// behind those for all earlier messages, and among them the one to widget
/// `j` is the `j`-th and carries the event that message `k` decodes to.
pub proof fn lemma_every_widget_receives_every_event(
    count: int,
    order: Endian,
    messages: Seq<Seq<u8>>,
    k: int,
    j: int,
)
    requires
        forall|i: int| 0 <= i < messages.len() ==> decode_spec(#[trigger] messages[i], order) is Ok,
        0 <= k < messages.len(),
        0 <= j < count,
    ensures
        0 <= k * count + j < deliveries_for(count, order, messages).len(),
        deliveries_for(count, order, messages)[k * count + j] == (
            j,
            decode_spec(messages[k], order)->Ok_0,
        ),
    decreases messages.len(),
{
    let earlier = messages.drop_last();
    let last = messages.len() - 1;
    assert forall|i: int| 0 <= i < earlier.len() implies decode_spec(
        #[trigger] earlier[i],
        order,
    ) is Ok by {
        assert(earlier[i] == messages[i]);
    }
    lemma_deliveries_len(count, order, earlier);
    lemma_deliveries_len(count, order, messages);
    assert(decode_spec(messages[last], order) is Ok);
    assert(0 <= k * count + j < count * messages.len()) by (nonlinear_arith)
        requires
            0 <= k < messages.len(),
            0 <= j < count,
    ;
    if k < last {
        assert(k * count + j < count * last) by (nonlinear_arith)
            requires
                0 <= k < last,
                0 <= j < count,
        ;
        lemma_every_widget_receives_every_event(count, order, earlier, k, j);
        assert(earlier[k] == messages[k]);
    } else {
        assert(k * count + j - count * last == j) by (nonlinear_arith)
            requires
                k == last,
        ;
    }
}

/// The deliveries for one part of a session followed by another are those
/// for the first part followed by those for the second.
pub proof fn lemma_deliveries_concat(
    count: int,
    order: Endian,
    first: Seq<Seq<u8>>,
    second: Seq<Seq<u8>>,
)
    ensures
        deliveries_for(count, order, first + second) == deliveries_for(count, order, first)
            + deliveries_for(count, order, second),
    decreases second.len(),
{
    if second.len() == 0 {
        assert(first + second =~= first);
        assert(deliveries_for(count, order, first) + Seq::<(int, Event)>::empty()
            =~= deliveries_for(count, order, first));
    } else {
        let whole = first + second;
        assert(whole.drop_last() =~= first + second.drop_last());
        assert(whole.last() == second.last());
        lemma_deliveries_concat(count, order, first, second.drop_last());
        let tail = step_deliveries(count, Some(decode_spec(second.last(), order)));
        assert((deliveries_for(count, order, first) + deliveries_for(
            count,
            order,
            second.drop_last(),
        )) + tail =~= deliveries_for(count, order, first) + (deliveries_for(
            count,
            order,
            second.drop_last(),
        ) + tail));
    }
}

/// No event is half delivered, and none overtakes another: whatever else a
/// session holds, the deliveries for its message `k` stand together, one to
/// each widget in the order of attachment, behind all deliveries for earlier
/// messages and before all deliveries for later ones.
pub proof fn lemma_event_is_delivered_whole(
    count: int,
    order: Endian,
    messages: Seq<Seq<u8>>,
    k: int,
)
    requires
        0 <= k < messages.len(),
    ensures
        deliveries_for(count, order, messages) == deliveries_for(count, order, messages.take(k))
            + step_deliveries(count, Some(decode_spec(messages[k], order))) + deliveries_for(
            count,
            order,
            messages.skip(k + 1),
        ),
{
    let upto = messages.take(k + 1);
    assert(messages =~= upto + messages.skip(k + 1));
    lemma_deliveries_concat(count, order, upto, messages.skip(k + 1));
    assert(upto.drop_last() =~= messages.take(k));
    assert(upto.last() == messages[k]);
}

} // verus!
