//! The relay hub: the last known activity of every session, the
//! subscribers, and what each of them is sent.

use crate::structs::{IpcActivityMessage, IpcActivityMessageView};
use vstd::prelude::*;

verus! {

/// What the hub puts into a subscriber's queue.
#[derive(Debug, PartialEq, Eq)]
pub enum BridgeCommand {
    /// Send this message to the subscriber.
    Message(Box<IpcActivityMessage>),
    /// Close the subscriber's connection.
    Close,
}

/// What a [`BridgeCommand`] stands for in contracts: the same value with its
/// strings and lists as sequences.
pub enum BridgeCommandView {
    Message(IpcActivityMessageView),
    Close,
}

impl View for BridgeCommand {
    type V = BridgeCommandView;

    open spec fn view(&self) -> BridgeCommandView {
        match self {
            BridgeCommand::Message(message) => BridgeCommandView::Message((**message)@),
            BridgeCommand::Close => BridgeCommandView::Close,
        }
    }
}

impl Clone for BridgeCommand {
    fn clone(&self) -> (res: Self)
        ensures
            res@ == self@,
    {
        match self {
            BridgeCommand::Message(message) => {
                let copy: IpcActivityMessage = (**message).clone();
                BridgeCommand::Message(Box::new(copy))
            },
            BridgeCommand::Close => BridgeCommand::Close,
        }
    }
}

/// The commands for one subscriber, in the order in which they go into its
/// queue.
#[derive(Debug, PartialEq, Eq)]
pub struct Delivery {
    pub subscriber: u64,
    pub commands: Vec<BridgeCommand>,
}

/// What a [`Delivery`] stands for in contracts: the same value with its
/// strings and lists as sequences.
pub struct DeliveryView {
    pub subscriber: u64,
    pub commands: Seq<BridgeCommandView>,
}

impl View for Delivery {
    type V = DeliveryView;

    open spec fn view(&self) -> DeliveryView {
        DeliveryView { subscriber: self.subscriber, commands: command_views(self.commands@) }
    }
}

/// The view of each message of a list, in order.
pub open spec fn message_views(v: Seq<IpcActivityMessage>) -> Seq<IpcActivityMessageView> {
    Seq::new(v.len(), |i: int| v[i]@)
}

/// The view of each command of a list, in order.
pub open spec fn command_views(v: Seq<BridgeCommand>) -> Seq<BridgeCommandView> {
    Seq::new(v.len(), |i: int| v[i]@)
}

/// The view of each delivery of a list, in order.
pub open spec fn delivery_views(v: Seq<Delivery>) -> Seq<DeliveryView> {
    Seq::new(v.len(), |i: int| v[i]@)
}

/// Whether `i` is the first place of a table at which the session
/// `socket_id` stands.
pub open spec fn is_first_entry(
    table: Seq<IpcActivityMessageView>,
    socket_id: Seq<char>,
    i: int,
) -> bool {
    &&& 0 <= i < table.len()
    &&& table[i].socket_id == socket_id
    &&& forall|j: int| 0 <= j < i ==> (#[trigger] table[j]).socket_id != socket_id
}

/// The first place of a table at which the session `socket_id` stands, if
/// it stands in the table at all.
pub open spec fn position(table: Seq<IpcActivityMessageView>, socket_id: Seq<char>) -> Option<
    int,
> {
    if exists|i: int| is_first_entry(table, socket_id, i) {
        Some(choose|i: int| is_first_entry(table, socket_id, i))
    } else {
        None
    }
}

/// What a table holds for the session `socket_id`.
pub open spec fn entry(table: Seq<IpcActivityMessageView>, socket_id: Seq<char>) -> Option<
    IpcActivityMessageView,
> {
    match position(table, socket_id) {
        Some(i) => Some(table[i]),
        None => None,
    }
}

/// The table after a message is published: the message takes the place
/// of what the table held for its session, or the last place if the
/// session is new.
pub open spec fn upsert(
    table: Seq<IpcActivityMessageView>,
    message: IpcActivityMessageView,
) -> Seq<IpcActivityMessageView> {
    match position(table, message.socket_id) {
        Some(i) => table.update(i, message),
        None => table.push(message),
    }
}

/// The entries of a table that carry an activity, in the table's order:
/// what a new subscriber is sent to catch up.
pub open spec fn live(table: Seq<IpcActivityMessageView>) -> Seq<IpcActivityMessageView>
    decreases table.len(),
{
    if table.len() == 0 {
        Seq::empty()
    } else if table.last().activity is Some {
        live(table.drop_last()).push(table.last())
    } else {
        live(table.drop_last())
    }
}

/// The message that clears what is shown for the session of `message`.
pub open spec fn cleared_message(message: IpcActivityMessageView) -> IpcActivityMessageView {
    IpcActivityMessageView { activity: None, ..message }
}

/// A table with every entry cleared.
pub open spec fn cleared(table: Seq<IpcActivityMessageView>) -> Seq<IpcActivityMessageView> {
    Seq::new(table.len(), |i: int| cleared_message(table[i]))
}

/// The last commands for a subscriber: one clearing message for each
/// session of the table, in the table's order, and then the close.
pub open spec fn farewell(table: Seq<IpcActivityMessageView>) -> Seq<BridgeCommandView> {
    Seq::new(
        table.len() + 1,
        |i: int|
            if i < table.len() {
                BridgeCommandView::Message(cleared_message(table[i]))
            } else {
                BridgeCommandView::Close
            },
    )
}

/// The same commands for every subscriber, in the order of registration.
pub open spec fn fan_out(subscribers: Seq<u64>, commands: Seq<BridgeCommandView>) -> Seq<
    DeliveryView,
> {
    Seq::new(subscribers.len(), |i: int| DeliveryView { subscriber: subscribers[i], commands })
}

/// The subscribers after `subscriber` has joined: it is added at the end
/// unless it is there already.
pub open spec fn with_subscriber(subscribers: Seq<u64>, subscriber: u64) -> Seq<u64> {
    if subscribers.contains(subscriber) {
        subscribers
    } else {
        subscribers.push(subscriber)
    }
}

/// The subscribers after `subscriber` has left: the others, in their
/// order.
pub open spec fn without_subscriber(subscribers: Seq<u64>, subscriber: u64) -> Seq<u64>
    decreases subscribers.len(),
{
    if subscribers.len() == 0 {
        subscribers
    } else if subscribers.last() == subscriber {
        without_subscriber(subscribers.drop_last(), subscriber)
    } else {
        without_subscriber(subscribers.drop_last(), subscriber).push(subscribers.last())
    }
}

/// The hub: who subscribes, and the last message published for each
/// session.
#[derive(Debug)]
pub struct BridgeServer {
    clients: Vec<u64>,
    activity: Vec<IpcActivityMessage>,
}

/// What a [`BridgeServer`] stands for in contracts: the same value with its
/// strings and lists as sequences.
pub struct BridgeServerView {
    /// The subscribers, in the order in which they joined.
    pub subscribers: Seq<u64>,
    /// The last message published for each session, in the order in which
    /// the sessions first published.
    pub activity: Seq<IpcActivityMessageView>,
}

impl View for BridgeServer {
    type V = BridgeServerView;

    closed spec fn view(&self) -> BridgeServerView {
        BridgeServerView {
            subscribers: self.clients@,
            activity: message_views(self.activity@),
        }
    }
}

/// Whether no session stands twice in a table.
pub open spec fn distinct_sessions(table: Seq<IpcActivityMessageView>) -> bool {
    forall|i: int, j: int|
        0 <= i < j < table.len() ==> (#[trigger] table[i]).socket_id != (
        #[trigger] table[j]).socket_id
}

impl BridgeServerView {
    /// What holds of every hub: no subscriber is registered twice, and
    /// the table has one entry for a session.
    pub open spec fn well_formed(self) -> bool {
        &&& self.subscribers.no_duplicates()
        &&& distinct_sessions(self.activity)
    }

    /// A hub without subscribers and without sessions.
    pub open spec fn empty() -> BridgeServerView {
        BridgeServerView { subscribers: Seq::empty(), activity: Seq::empty() }
    }

    /// A subscriber joins: it is sent the live entries of the table and
    /// is registered, in one step.
    pub open spec fn subscribe(self, subscriber: u64) -> (
        BridgeServerView,
        Seq<IpcActivityMessageView>,
    ) {
        (
            BridgeServerView {
                subscribers: with_subscriber(self.subscribers, subscriber),
                ..self
            },
            live(self.activity),
        )
    }

    /// A subscriber leaves.
    pub open spec fn unsubscribe(self, subscriber: u64) -> BridgeServerView {
        BridgeServerView { subscribers: without_subscriber(self.subscribers, subscriber), ..self }
    }

    /// A message is published: the table takes it in, and every
    /// subscriber is sent it.
    pub open spec fn publish(self, message: IpcActivityMessageView) -> (
        BridgeServerView,
        Seq<DeliveryView>,
    ) {
        (
            BridgeServerView { activity: upsert(self.activity, message), ..self },
            fan_out(self.subscribers, seq![BridgeCommandView::Message(message)]),
        )
    }

    /// The hub shuts down: every subscriber is sent a clearing message for
    /// each session and then the close; the table is cleared and no
    /// subscriber is left.
    pub open spec fn close(self) -> (BridgeServerView, Seq<DeliveryView>) {
        (
            BridgeServerView { subscribers: Seq::empty(), activity: cleared(self.activity) },
            fan_out(self.subscribers, farewell(self.activity)),
        )
    }
}

/// A copy of a message without its activity.
fn clear(message: &IpcActivityMessage) -> (res: IpcActivityMessage)
    ensures
        res@ == cleared_message(message@),
{
    IpcActivityMessage { activity: None, socket_id: message.socket_id.clone(), pid: message.pid }
}

/// A copy of a list of commands.
fn clone_commands(commands: &Vec<BridgeCommand>) -> (res: Vec<BridgeCommand>)
    ensures
        command_views(res@) == command_views(commands@),
{
    let mut res: Vec<BridgeCommand> = Vec::new();
    let mut i: usize = 0;
    while i < commands.len()
        invariant
            i <= commands.len(),
            res@.len() == i,
            forall|j: int| 0 <= j < i ==> res@[j]@ == commands@[j]@,
        decreases commands.len() - i,
    {
        res.push(commands[i].clone());
        i = i + 1;
    }
    assert(command_views(res@) =~= command_views(commands@));
    res
}

/// One delivery of `commands` for each subscriber.
fn deliver_to_all(subscribers: &Vec<u64>, commands: &Vec<BridgeCommand>) -> (res: Vec<Delivery>)
    ensures
        delivery_views(res@) == fan_out(subscribers@, command_views(commands@)),
{
    let mut res: Vec<Delivery> = Vec::new();
    let mut i: usize = 0;
    while i < subscribers.len()
        invariant
            i <= subscribers.len(),
            res@.len() == i,
            forall|j: int|
                0 <= j < i ==> res@[j]@ == (DeliveryView {
                    subscriber: subscribers@[j],
                    commands: command_views(commands@),
                }),
        decreases subscribers.len() - i,
    {
        res.push(Delivery { subscriber: subscribers[i], commands: clone_commands(commands) });
        i = i + 1;
    }
    assert(delivery_views(res@) =~= fan_out(subscribers@, command_views(commands@)));
    res
}

impl BridgeServer {
    #[verifier::type_invariant]
    spec fn one_entry_each(&self) -> bool {
        self@.well_formed()
    }

    /// A hub without subscribers and without sessions.
    pub fn new() -> (hub: BridgeServer)
        ensures
            hub@ == BridgeServerView::empty(),
            hub@.well_formed(),
    {
        let hub = BridgeServer { clients: Vec::new(), activity: Vec::new() };
        assert(hub@.activity =~= Seq::empty());
        hub
    }

    /// The subscribers, in the order in which they joined.
    pub fn subscribers(&self) -> (subscribers: &Vec<u64>)
        ensures
            subscribers@ == self@.subscribers,
            subscribers@.no_duplicates(),
    {
        proof {
            use_type_invariant(self);
        }
        &self.clients
    }

    /// The last message published for each session, in the order in which
    /// the sessions first published.
    pub fn activity(&self) -> (table: &Vec<IpcActivityMessage>)
        ensures
            message_views(table@) == self@.activity,
            distinct_sessions(message_views(table@)),
    {
        proof {
            use_type_invariant(self);
        }
        &self.activity
    }

    /// The live entries of the table: all that a subscriber needs in
    /// order to show the present state.
    fn snapshot(&self) -> (messages: Vec<IpcActivityMessage>)
        ensures
            message_views(messages@) == live(self@.activity),
    {
        let mut messages: Vec<IpcActivityMessage> = Vec::new();
        let mut i: usize = 0;
        assert(self@.activity.take(0) =~= Seq::empty());
        while i < self.activity.len()
            invariant
                i <= self.activity.len(),
                message_views(messages@) == live(self@.activity.take(i as int)),
            decreases self.activity.len() - i,
        {
            let ghost before = message_views(messages@);
            proof {
                let table = self@.activity;
                assert(table.take(i + 1).drop_last() =~= table.take(i as int));
                assert(table.take(i + 1).last() == table[i as int]);
            }
            if self.activity[i].activity.is_some() {
                messages.push(self.activity[i].clone());
                assert(message_views(messages@) =~= before.push(self@.activity[i as int]));
            }
            i = i + 1;
        }
        assert(self@.activity.take(i as int) =~= self@.activity);
        messages
    }

    /// Takes in a subscriber and returns what it is to be sent first: one
    /// message for each session whose last activity is not cleared.
    ///
    /// Joining and reading the table are one step: a message published
    /// later is delivered to the subscriber, a message published earlier
    /// is in what is returned, and none is in both or in neither.
    pub fn subscribe(&mut self, subscriber: u64) -> (catch_up: Vec<IpcActivityMessage>)
        ensures
            (final(self)@, message_views(catch_up@)) == old(self)@.subscribe(subscriber),
            old(self)@.well_formed(),
            final(self)@.well_formed(),
            distinct_sessions(message_views(catch_up@)),
            catch_up@.len() == live_sessions(old(self)@.activity).len(),
    {
        proof {
            use_type_invariant(&*self);
            lemma_catch_up_complete(self@.activity);
        }
        let catch_up = self.snapshot();
        let mut known = false;
        let mut i: usize = 0;
        while i < self.clients.len()
            invariant
                i <= self.clients.len(),
                *self == *old(self),
                known <==> exists|j: int| 0 <= j < i && self.clients@[j] == subscriber,
            decreases self.clients.len() - i,
        {
            if self.clients[i] == subscriber {
                known = true;
            }
            i = i + 1;
        }
        if !known {
            // The list is taken out while it changes, so that the hub is whole at
            // every step.
            let mut clients: Vec<u64> = Vec::new();
            core::mem::swap(&mut self.clients, &mut clients);
            clients.push(subscriber);
            assert(clients@.no_duplicates()) by {
                let before = old(self)@.subscribers;
                assert forall|a: int, b: int|
                    0 <= a < clients@.len() && 0 <= b < clients@.len() && a != b implies clients@[a]
                    != clients@[b] by {
                    if a < before.len() && b < before.len() {
                        assert(before[a] != before[b]);
                    } else if a < before.len() {
                        assert(before[a] == clients@[a]);
                    } else {
                        assert(before[b] == clients@[b]);
                    }
                }
            }
            core::mem::swap(&mut self.clients, &mut clients);
        }
        catch_up
    }

    /// Takes a subscriber out, as its handler does when the connection is
    /// over.
    pub fn unsubscribe(&mut self, subscriber: u64)
        ensures
            final(self)@ == old(self)@.unsubscribe(subscriber),
            old(self)@.well_formed(),
            final(self)@.well_formed(),
    {
        proof {
            use_type_invariant(&*self);
        }
        let mut rest: Vec<u64> = Vec::new();
        let mut i: usize = 0;
        assert(self.clients@.take(0) =~= Seq::empty());
        while i < self.clients.len()
            invariant
                i <= self.clients.len(),
                *self == *old(self),
                rest@ == without_subscriber(self.clients@.take(i as int), subscriber),
            decreases self.clients.len() - i,
        {
            proof {
                assert(self.clients@.take(i + 1).drop_last() =~= self.clients@.take(i as int));
            }
            if self.clients[i] != subscriber {
                rest.push(self.clients[i]);
            }
            i = i + 1;
        }
        assert(self.clients@.take(i as int) =~= self.clients@);
        proof {
            lemma_without_subscriber(self.clients@, subscriber);
        }
        self.clients = rest;
    }

    /// The place of a session in the table.
    fn find(&self, socket_id: &String) -> (found: Option<usize>)
        ensures
            match found {
                Some(i) => position(self@.activity, socket_id@) == Some(i as int),
                None => position(self@.activity, socket_id@) is None,
            },
    {
        let mut i: usize = 0;
        while i < self.activity.len()
            invariant
                i <= self.activity.len(),
                forall|j: int| 0 <= j < i ==> (#[trigger] self@.activity[j]).socket_id != socket_id@,
            decreases self.activity.len() - i,
        {
            if self.activity[i].socket_id == *socket_id {
                proof {
                    let table = self@.activity;
                    assert(is_first_entry(table, socket_id@, i as int));
                    assert forall|k: int| is_first_entry(table, socket_id@, k) implies k == i by {
                        if k < i {
                            assert(table[k].socket_id != socket_id@);
                        }
                    }
                }
                return Some(i);
            }
            i = i + 1;
        }
        proof {
            let table = self@.activity;
            assert forall|k: int| !is_first_entry(table, socket_id@, k) by {
                if 0 <= k < table.len() {
                    assert(table[k].socket_id != socket_id@);
                }
            }
        }
        None
    }

    /// Publishes a message: it becomes what the table holds for its
    /// session, and every subscriber is sent a copy.
    pub fn send_activity(&mut self, msg: IpcActivityMessage) -> (deliveries: Vec<Delivery>)
        ensures
            (final(self)@, delivery_views(deliveries@)) == old(self)@.publish(msg@),
            old(self)@.well_formed(),
            final(self)@.well_formed(),
    {
        proof {
            use_type_invariant(&*self);
        }
        let mut commands: Vec<BridgeCommand> = Vec::new();
        commands.push(BridgeCommand::Message(Box::new(msg.clone())));
        assert(command_views(commands@) =~= seq![BridgeCommandView::Message(msg@)]);
        let deliveries = deliver_to_all(&self.clients, &commands);
        let found = self.find(&msg.socket_id);
        // The table is taken out while it changes, so that the hub is whole at
        // every step.
        let mut table: Vec<IpcActivityMessage> = Vec::new();
        core::mem::swap(&mut self.activity, &mut table);
        match found {
            Some(i) => {
                table.set(i, msg);
                assert(message_views(table@) =~= old(self)@.activity.update(i as int, msg@));
            },
            None => {
                table.push(msg);
                assert(message_views(table@) =~= old(self)@.activity.push(msg@));
            },
        }
        proof {
            lemma_upsert(old(self)@.activity, msg@);
        }
        core::mem::swap(&mut self.activity, &mut table);
        deliveries
    }

    /// Shuts the hub down: clears the table and returns, for each
    /// subscriber, a clearing message for every session followed by the
    /// close. No subscriber is left.
    pub fn close(&mut self) -> (deliveries: Vec<Delivery>)
        ensures
            (final(self)@, delivery_views(deliveries@)) == old(self)@.close(),
            old(self)@.well_formed(),
            final(self)@.well_formed(),
    {
        proof {
            use_type_invariant(&*self);
        }
        let mut table: Vec<IpcActivityMessage> = Vec::new();
        let mut commands: Vec<BridgeCommand> = Vec::new();
        let mut i: usize = 0;
        while i < self.activity.len()
            invariant
                i <= self.activity.len(),
                *self == *old(self),
                table@.len() == i,
                commands@.len() == i,
                forall|j: int| 0 <= j < i ==> table@[j]@ == cleared_message(self@.activity[j]),
                forall|j: int|
                    0 <= j < i ==> commands@[j]@ == BridgeCommandView::Message(
                        cleared_message(self@.activity[j]),
                    ),
            decreases self.activity.len() - i,
        {
            table.push(clear(&self.activity[i]));
            commands.push(BridgeCommand::Message(Box::new(clear(&self.activity[i]))));
            i = i + 1;
        }
        commands.push(BridgeCommand::Close);
        assert(command_views(commands@) =~= farewell(self@.activity));
        assert(message_views(table@) =~= cleared(self@.activity));
        let deliveries = deliver_to_all(&self.clients, &commands);
        assert(distinct_sessions(message_views(table@))) by {
            let before = self@.activity;
            let after = message_views(table@);
            assert forall|a: int, b: int| 0 <= a < b < after.len() implies (
            #[trigger] after[a]).socket_id != (#[trigger] after[b]).socket_id by {
                assert(before[a].socket_id != before[b].socket_id);
            }
        }
        self.activity = table;
        self.clients = Vec::new();
        deliveries
    }
}

/// What happens to a subscriber's connection.
#[derive(Debug, PartialEq, Eq)]
pub enum SubscriberEvent {
    /// A command came out of the subscriber's queue.
    Command(BridgeCommand),
    /// The queue was closed from the other side.
    QueueClosed,
    /// The subscriber sent something that is not a close.
    Inbound,
    /// The subscriber sent a close.
    InboundClose,
    /// Reading from the connection failed.
    InboundFailed,
    /// The connection ended.
    InboundEnded,
}

/// What a [`SubscriberEvent`] stands for in contracts: the same value with its
/// strings and lists as sequences.
pub enum SubscriberEventView {
    Command(BridgeCommandView),
    QueueClosed,
    Inbound,
    InboundClose,
    InboundFailed,
    InboundEnded,
}

impl View for SubscriberEvent {
    type V = SubscriberEventView;

    open spec fn view(&self) -> SubscriberEventView {
        match self {
            SubscriberEvent::Command(command) => SubscriberEventView::Command(command@),
            SubscriberEvent::QueueClosed => SubscriberEventView::QueueClosed,
            SubscriberEvent::Inbound => SubscriberEventView::Inbound,
            SubscriberEvent::InboundClose => SubscriberEventView::InboundClose,
            SubscriberEvent::InboundFailed => SubscriberEventView::InboundFailed,
            SubscriberEvent::InboundEnded => SubscriberEventView::InboundEnded,
        }
    }
}

/// What a subscriber's handler does about an event.
#[derive(Debug, PartialEq, Eq)]
pub enum SubscriberStep {
    /// Write this message to the connection and go on.
    Send(IpcActivityMessage),
    /// Go on.
    Skip,
    /// Stop, and take the subscriber out of the hub.
    Leave,
}

/// What a [`SubscriberStep`] stands for in contracts: the same value with its
/// strings and lists as sequences.
pub enum SubscriberStepView {
    Send(IpcActivityMessageView),
    Skip,
    Leave,
}

impl View for SubscriberStep {
    type V = SubscriberStepView;

    open spec fn view(&self) -> SubscriberStepView {
        match self {
            SubscriberStep::Send(message) => SubscriberStepView::Send(message@),
            SubscriberStep::Skip => SubscriberStepView::Skip,
            SubscriberStep::Leave => SubscriberStepView::Leave,
        }
    }
}

/// What a subscriber's handler does about an event. A message from the
/// queue is written out. What the subscriber sends is of no interest,
/// except a close. A close from either side, a failure and the end of the
/// connection or of the queue end the handler.
pub open spec fn subscriber_step(event: SubscriberEventView) -> SubscriberStepView {
    match event {
        SubscriberEventView::Command(BridgeCommandView::Message(message)) => {
            SubscriberStepView::Send(message)
        },
        SubscriberEventView::Inbound => SubscriberStepView::Skip,
        _ => SubscriberStepView::Leave,
    }
}

impl BridgeServer {
    /// Decides what a subscriber's handler does about an event.
    pub fn handle_event(event: SubscriberEvent) -> (step: SubscriberStep)
        ensures
            step@ == subscriber_step(event@),
    {
        match event {
            SubscriberEvent::Command(BridgeCommand::Message(message)) => SubscriberStep::Send(
                *message,
            ),
            SubscriberEvent::Inbound => SubscriberStep::Skip,
            _ => SubscriberStep::Leave,
        }
    }
}

/// A session has one first place in a table.
pub proof fn lemma_first_entry_unique(
    table: Seq<IpcActivityMessageView>,
    socket_id: Seq<char>,
    a: int,
    b: int,
)
    requires
        is_first_entry(table, socket_id, a),
        is_first_entry(table, socket_id, b),
    ensures
        a == b,
{
    if a < b {
        assert(table[a].socket_id != socket_id);
    } else if b < a {
        assert(table[b].socket_id != socket_id);
    }
}

/// Where a session stands first is its position.
pub proof fn lemma_position_found(
    table: Seq<IpcActivityMessageView>,
    socket_id: Seq<char>,
    i: int,
)
    requires
        is_first_entry(table, socket_id, i),
    ensures
        position(table, socket_id) == Some(i),
        entry(table, socket_id) == Some(table[i]),
{
    let chosen = choose|k: int| is_first_entry(table, socket_id, k);
    lemma_first_entry_unique(table, socket_id, chosen, i);
}

/// A session that stands anywhere in a table has a position, at or before
/// that place.
pub proof fn lemma_position_exists(
    table: Seq<IpcActivityMessageView>,
    socket_id: Seq<char>,
    i: int,
)
    requires
        0 <= i < table.len(),
        table[i].socket_id == socket_id,
    ensures
        position(table, socket_id) matches Some(p) && p <= i && is_first_entry(
            table,
            socket_id,
            p,
        ),
    decreases i,
{
    if forall|j: int| 0 <= j < i ==> (#[trigger] table[j]).socket_id != socket_id {
        lemma_position_found(table, socket_id, i);
    } else {
        let j = choose|j: int| 0 <= j < i && (#[trigger] table[j]).socket_id == socket_id;
        lemma_position_exists(table, socket_id, j);
    }
}

/// A session without a position stands nowhere in the table.
pub proof fn lemma_position_none(table: Seq<IpcActivityMessageView>, socket_id: Seq<char>)
    requires
        position(table, socket_id) is None,
    ensures
        forall|i: int| 0 <= i < table.len() ==> (#[trigger] table[i]).socket_id != socket_id,
{
    assert forall|i: int| 0 <= i < table.len() implies (#[trigger] table[i]).socket_id
        != socket_id by {
        if table[i].socket_id == socket_id {
            lemma_position_exists(table, socket_id, i);
        }
    }
}

/// In a table without repetition, every entry is what the table holds for
/// its session.
pub proof fn lemma_entry_at(table: Seq<IpcActivityMessageView>, i: int)
    requires
        distinct_sessions(table),
        0 <= i < table.len(),
    ensures
        position(table, table[i].socket_id) == Some(i),
        entry(table, table[i].socket_id) == Some(table[i]),
{
    assert forall|j: int| 0 <= j < i implies (#[trigger] table[j]).socket_id
        != table[i].socket_id by {}
    lemma_position_found(table, table[i].socket_id, i);
}

/// The table holds what was published. After a message is published, the
/// table holds that message for its session and what it held before for
/// every other; it grows by one entry if the session is new and keeps its
/// length otherwise; and it still has one entry for a session.
pub proof fn lemma_upsert(table: Seq<IpcActivityMessageView>, message: IpcActivityMessageView)
    ensures
        entry(upsert(table, message), message.socket_id) == Some(message),
        forall|other: Seq<char>|
            other != message.socket_id ==> #[trigger] entry(upsert(table, message), other)
                == entry(table, other),
        upsert(table, message).len() == if entry(table, message.socket_id) is Some {
            table.len()
        } else {
            table.len() + 1
        },
        distinct_sessions(table) ==> distinct_sessions(upsert(table, message)),
{
    let after = upsert(table, message);
    let at: int = match position(table, message.socket_id) {
        Some(i) => i,
        None => table.len() as int,
    };
    if position(table, message.socket_id) is None {
        lemma_position_none(table, message.socket_id);
    }
    assert(is_first_entry(after, message.socket_id, at));
    lemma_position_found(after, message.socket_id, at);
    assert forall|other: Seq<char>| other != message.socket_id implies #[trigger] entry(
        after,
        other,
    ) == entry(table, other) by {
        match position(table, other) {
            Some(i) => {
                assert(is_first_entry(after, other, i));
                lemma_position_found(after, other, i);
            },
            None => {
                lemma_position_none(table, other);
                if position(after, other) is Some {
                    let k = position(after, other)->0;
                    assert(after[k].socket_id == other);
                    if k < table.len() {
                        assert(table[k].socket_id == other);
                    }
                }
            },
        }
    }
    if distinct_sessions(table) {
        assert forall|i: int, j: int| 0 <= i < j < after.len() implies (
        #[trigger] after[i]).socket_id != (#[trigger] after[j]).socket_id by {
            if i != at && j != at {
                assert(table[i].socket_id != table[j].socket_id);
            } else if i == at {
                if position(table, message.socket_id) is Some {
                    assert(table[i].socket_id != table[j].socket_id);
                }
            } else {
                if position(table, message.socket_id) is Some {
                    assert(table[i].socket_id != table[j].socket_id);
                } else {
                    assert(table[i].socket_id != message.socket_id);
                }
            }
        }
    }
}

/// What catching up consists of: every message of it carries an activity
/// and stands in the table, and every entry of the table that carries an
/// activity is among the messages.
pub proof fn lemma_live_members(table: Seq<IpcActivityMessageView>)
    ensures
        live(table).len() <= table.len(),
        forall|k: int|
            0 <= k < live(table).len() ==> {
                &&& (#[trigger] live(table)[k]).activity is Some
                &&& exists|i: int| 0 <= i < table.len() && #[trigger] table[i] == live(table)[k]
            },
        forall|i: int|
            0 <= i < table.len() && (#[trigger] table[i]).activity is Some ==> exists|k: int|
                0 <= k < live(table).len() && #[trigger] live(table)[k] == table[i],
    decreases table.len(),
{
    if table.len() > 0 {
        let front = table.drop_last();
        let last = table.last();
        lemma_live_members(front);
        assert forall|k: int| 0 <= k < live(table).len() implies {
            &&& (#[trigger] live(table)[k]).activity is Some
            &&& exists|i: int| 0 <= i < table.len() && #[trigger] table[i] == live(table)[k]
        } by {
            if k < live(front).len() {
                let i = choose|i: int| 0 <= i < front.len() && #[trigger] front[i] == live(
                    front,
                )[k];
                assert(table[i] == live(table)[k]);
            } else {
                assert(table[table.len() - 1] == live(table)[k]);
            }
        }
        assert forall|i: int|
            0 <= i < table.len() && (#[trigger] table[i]).activity is Some implies exists|k: int|
            0 <= k < live(table).len() && #[trigger] live(table)[k] == table[i] by {
            if i < front.len() {
                assert(front[i] == table[i]);
                let k = choose|k: int|
                    0 <= k < live(front).len() && #[trigger] live(front)[k] == front[i];
                assert(live(table)[k] == table[i]);
            } else {
                assert(live(table)[live(table).len() - 1] == table[i]);
            }
        }
    }
}

/// Catching up names no session twice, if the table does not.
pub proof fn lemma_live_distinct(table: Seq<IpcActivityMessageView>)
    requires
        distinct_sessions(table),
    ensures
        distinct_sessions(live(table)),
    decreases table.len(),
{
    if table.len() > 0 {
        let front = table.drop_last();
        let last = table.last();
        assert(distinct_sessions(front)) by {
            assert forall|i: int, j: int| 0 <= i < j < front.len() implies (
            #[trigger] front[i]).socket_id != (#[trigger] front[j]).socket_id by {
                assert(table[i].socket_id != table[j].socket_id);
            }
        }
        lemma_live_distinct(front);
        lemma_live_members(front);
        if last.activity is Some {
            let out = live(table);
            assert forall|a: int, b: int| 0 <= a < b < out.len() implies (
            #[trigger] out[a]).socket_id != (#[trigger] out[b]).socket_id by {
                if b < live(front).len() {
                    assert(live(front)[a].socket_id != live(front)[b].socket_id);
                } else {
                    let i = choose|i: int| 0 <= i < front.len() && #[trigger] front[i] == live(
                        front,
                    )[a];
                    assert(table[i].socket_id != table[table.len() - 1].socket_id);
                }
            }
        }
    }
}

/// The sessions of a table whose last activity is not cleared.
pub open spec fn live_sessions(table: Seq<IpcActivityMessageView>) -> Set<Seq<char>> {
    Set::new(
        |socket_id: Seq<char>|
            entry(table, socket_id) matches Some(message) && message.activity is Some,
    )
}

/// The session of each message of a list, in order.
pub open spec fn session_ids(messages: Seq<IpcActivityMessageView>) -> Seq<Seq<char>> {
    Seq::new(messages.len(), |i: int| messages[i].socket_id)
}

/// Catch-up completeness. A new subscriber is sent exactly one message
/// for each session whose last activity is not cleared, namely what the
/// table holds for that session, and nothing else: as many messages as
/// there are such sessions.
pub proof fn lemma_catch_up_complete(table: Seq<IpcActivityMessageView>)
    requires
        distinct_sessions(table),
    ensures
        distinct_sessions(live(table)),
        forall|k: int|
            0 <= k < live(table).len() ==> {
                &&& (#[trigger] live(table)[k]).activity is Some
                &&& entry(table, live(table)[k].socket_id) == Some(live(table)[k])
            },
        forall|socket_id: Seq<char>| #[trigger]
            live_sessions(table).contains(socket_id) ==> exists|k: int|
                0 <= k < live(table).len() && #[trigger] live(table)[k] == entry(
                    table,
                    socket_id,
                )->0,
        live_sessions(table).finite(),
        live(table).len() == live_sessions(table).len(),
{
    let out = live(table);
    lemma_live_distinct(table);
    lemma_live_members(table);
    assert forall|k: int| 0 <= k < out.len() implies {
        &&& (#[trigger] out[k]).activity is Some
        &&& entry(table, out[k].socket_id) == Some(out[k])
    } by {
        let i = choose|i: int| 0 <= i < table.len() && #[trigger] table[i] == out[k];
        lemma_entry_at(table, i);
    }
    assert forall|socket_id: Seq<char>| #[trigger]
        live_sessions(table).contains(socket_id) implies exists|k: int|
        0 <= k < out.len() && #[trigger] out[k] == entry(table, socket_id)->0 by {
        let i = position(table, socket_id)->0;
        assert(is_first_entry(table, socket_id, i));
        assert(table[i].activity is Some);
    }
    let ids = session_ids(out);
    assert(ids.no_duplicates()) by {
        assert forall|a: int, b: int| 0 <= a < ids.len() && 0 <= b < ids.len() && a != b implies ids[a]
            != ids[b] by {
            if a < b {
                assert(out[a].socket_id != out[b].socket_id);
            } else {
                assert(out[b].socket_id != out[a].socket_id);
            }
        }
    }
    ids.unique_seq_to_set();
    assert(ids.to_set() =~= live_sessions(table)) by {
        assert forall|socket_id: Seq<char>| ids.to_set().contains(socket_id) implies live_sessions(
            table,
        ).contains(socket_id) by {
            let k = choose|k: int| 0 <= k < ids.len() && ids[k] == socket_id;
            assert(entry(table, out[k].socket_id) == Some(out[k]));
        }
        assert forall|socket_id: Seq<char>| live_sessions(table).contains(socket_id) implies ids.to_set().contains(
            socket_id,
        ) by {
            let k = choose|k: int|
                0 <= k < out.len() && #[trigger] out[k] == entry(table, socket_id)->0;
            let i = position(table, socket_id)->0;
            assert(is_first_entry(table, socket_id, i));
            assert(ids[k] == socket_id);
        }
    }
    vstd::seq_lib::seq_to_set_is_finite(ids);
}

/// Clearing. Once a message without activity is published for a session,
/// catching up does not name that session; for every other session it is
/// as before.
pub proof fn lemma_clearing(table: Seq<IpcActivityMessageView>, message: IpcActivityMessageView)
    requires
        distinct_sessions(table),
        message.activity is None,
    ensures
        forall|k: int|
            0 <= k < live(upsert(table, message)).len() ==> (#[trigger] live(
                upsert(table, message),
            )[k]).socket_id != message.socket_id,
        !live_sessions(upsert(table, message)).contains(message.socket_id),
        forall|other: Seq<char>|
            other != message.socket_id ==> (live_sessions(upsert(table, message)).contains(other)
                <==> #[trigger] live_sessions(table).contains(other)),
{
    let after = upsert(table, message);
    lemma_upsert(table, message);
    lemma_catch_up_complete(after);
    assert forall|other: Seq<char>| other != message.socket_id implies (live_sessions(
        after,
    ).contains(other) <==> #[trigger] live_sessions(table).contains(other)) by {
        assert(entry(after, other) == entry(table, other));
    }
}

/// The table after a run of messages is published, in order.
pub open spec fn publish_all(
    table: Seq<IpcActivityMessageView>,
    messages: Seq<IpcActivityMessageView>,
) -> Seq<IpcActivityMessageView>
    decreases messages.len(),
{
    if messages.len() == 0 {
        table
    } else {
        upsert(publish_all(table, messages.drop_last()), messages.last())
    }
}

/// The last message of a run that is for the session `socket_id`.
pub open spec fn latest(messages: Seq<IpcActivityMessageView>, socket_id: Seq<char>) -> Option<
    IpcActivityMessageView,
>
    decreases messages.len(),
{
    if messages.len() == 0 {
        None
    } else if messages.last().socket_id == socket_id {
        Some(messages.last())
    } else {
        latest(messages.drop_last(), socket_id)
    }
}

/// The table holds the most recent message of each session: after a run
/// of messages is published, what it holds for a session is the last
/// message of the run for that session, and what it held before if the
/// run has none.
pub proof fn lemma_table_holds_latest(
    table: Seq<IpcActivityMessageView>,
    messages: Seq<IpcActivityMessageView>,
)
    requires
        distinct_sessions(table),
    ensures
        distinct_sessions(publish_all(table, messages)),
        forall|socket_id: Seq<char>| #[trigger]
            entry(publish_all(table, messages), socket_id) == match latest(messages, socket_id) {
                Some(message) => Some(message),
                None => entry(table, socket_id),
            },
    decreases messages.len(),
{
    if messages.len() > 0 {
        let before = publish_all(table, messages.drop_last());
        lemma_table_holds_latest(table, messages.drop_last());
        lemma_upsert(before, messages.last());
        assert forall|socket_id: Seq<char>| #[trigger]
            entry(publish_all(table, messages), socket_id) == match latest(messages, socket_id) {
                Some(message) => Some(message),
                None => entry(table, socket_id),
            } by {
            if socket_id != messages.last().socket_id {
                assert(entry(upsert(before, messages.last()), socket_id) == entry(
                    before,
                    socket_id,
                ));
            }
        }
    }
}

/// Whether a session has a message in a run.
pub open spec fn published(messages: Seq<IpcActivityMessageView>, socket_id: Seq<char>) -> bool {
    exists|i: int| 0 <= i < messages.len() && (#[trigger] messages[i]).socket_id == socket_id
}

/// A session has a latest message in a run exactly if it has a message in
/// the run, and the latest message is one of the run.
pub proof fn lemma_latest(messages: Seq<IpcActivityMessageView>, socket_id: Seq<char>)
    ensures
        latest(messages, socket_id) is Some <==> published(messages, socket_id),
        latest(messages, socket_id) matches Some(message) ==> message.socket_id == socket_id
            && exists|i: int| 0 <= i < messages.len() && #[trigger] messages[i] == message,
    decreases messages.len(),
{
    if messages.len() > 0 {
        let front = messages.drop_last();
        lemma_latest(front, socket_id);
        if messages.last().socket_id == socket_id {
            assert(messages[messages.len() - 1].socket_id == socket_id);
        } else {
            if published(front, socket_id) {
                let i = choose|i: int|
                    0 <= i < front.len() && (#[trigger] front[i]).socket_id == socket_id;
                assert(messages[i].socket_id == socket_id);
            }
            if published(messages, socket_id) {
                let i = choose|i: int|
                    0 <= i < messages.len() && (#[trigger] messages[i]).socket_id == socket_id;
                assert(front[i].socket_id == socket_id);
            }
            if latest(front, socket_id) is Some {
                let message = latest(front, socket_id)->0;
                let i = choose|i: int| 0 <= i < front.len() && #[trigger] front[i] == message;
                assert(messages[i] == message);
            }
        }
    }
}

/// Catching up after a run of publications. Starting from an empty
/// table, in whatever order the messages of the sessions arrive, a
/// subscriber that joins afterwards is sent exactly one message for each
/// session whose latest message carries an activity, and that message is
/// the latest. If every message of the run carries an activity, these are
/// as many messages as sessions have published.
pub proof fn lemma_catch_up_after_publishes(messages: Seq<IpcActivityMessageView>)
    ensures
        ({
            let table = publish_all(Seq::empty(), messages);
            let catch_up = live(table);
            &&& distinct_sessions(catch_up)
            &&& forall|k: int|
                0 <= k < catch_up.len() ==> {
                    &&& (#[trigger] catch_up[k]).activity is Some
                    &&& latest(messages, catch_up[k].socket_id) == Some(catch_up[k])
                }
            &&& forall|socket_id: Seq<char>|
                (#[trigger] latest(messages, socket_id) matches Some(message)
                    && message.activity is Some) ==> exists|k: int|
                    0 <= k < catch_up.len() && #[trigger] catch_up[k] == latest(
                        messages,
                        socket_id,
                    )->0
            &&& (forall|i: int| 0 <= i < messages.len() ==> (#[trigger] messages[i]).activity is Some)
                ==> catch_up.len() == session_ids(messages).to_set().len()
        }),
{
    let nothing = Seq::<IpcActivityMessageView>::empty();
    let table = publish_all(nothing, messages);
    let catch_up = live(table);
    lemma_table_holds_latest(nothing, messages);
    lemma_catch_up_complete(table);
    assert forall|socket_id: Seq<char>| #[trigger]
        entry(table, socket_id) == latest(messages, socket_id) by {
        assert(entry(table, socket_id) == match latest(messages, socket_id) {
            Some(message) => Some(message),
            None => entry(nothing, socket_id),
        });
        if entry(nothing, socket_id) is Some {
            let i = position(nothing, socket_id)->0;
            assert(is_first_entry(nothing, socket_id, i));
        }
    }
    assert forall|k: int| 0 <= k < catch_up.len() implies {
        &&& (#[trigger] catch_up[k]).activity is Some
        &&& latest(messages, catch_up[k].socket_id) == Some(catch_up[k])
    } by {
        assert(entry(table, catch_up[k].socket_id) == Some(catch_up[k]));
    }
    assert forall|socket_id: Seq<char>|
        (#[trigger] latest(messages, socket_id) matches Some(message)
            && message.activity is Some) implies exists|k: int|
        0 <= k < catch_up.len() && #[trigger] catch_up[k] == latest(messages, socket_id)->0 by {
        assert(entry(table, socket_id) == latest(messages, socket_id));
        assert(live_sessions(table).contains(socket_id));
    }
    if forall|i: int| 0 <= i < messages.len() ==> (#[trigger] messages[i]).activity is Some {
        let ids = session_ids(messages);
        assert(ids.to_set() =~= live_sessions(table)) by {
            assert forall|socket_id: Seq<char>| ids.to_set().contains(socket_id) implies live_sessions(
                table,
            ).contains(socket_id) by {
                let i = choose|i: int| 0 <= i < ids.len() && ids[i] == socket_id;
                assert(messages[i].socket_id == socket_id);
                lemma_latest(messages, socket_id);
                assert(entry(table, socket_id) == latest(messages, socket_id));
            }
            assert forall|socket_id: Seq<char>| live_sessions(table).contains(socket_id) implies ids.to_set().contains(
                socket_id,
            ) by {
                lemma_latest(messages, socket_id);
                assert(entry(table, socket_id) == latest(messages, socket_id));
                let i = choose|i: int|
                    0 <= i < messages.len() && (#[trigger] messages[i]).socket_id == socket_id;
                assert(ids[i] == socket_id);
            }
        }
    }
}

/// Who is left when a subscriber leaves: it is gone, every other
/// subscriber stays, in the same order, and none is there twice that was
/// not before.
pub proof fn lemma_without_subscriber(subscribers: Seq<u64>, subscriber: u64)
    ensures
        !without_subscriber(subscribers, subscriber).contains(subscriber),
        forall|other: u64|
            other != subscriber ==> (#[trigger] without_subscriber(
                subscribers,
                subscriber,
            ).contains(other) <==> subscribers.contains(other)),
        subscribers.no_duplicates() ==> without_subscriber(
            subscribers,
            subscriber,
        ).no_duplicates(),
        without_subscriber(subscribers, subscriber).len() <= subscribers.len(),
    decreases subscribers.len(),
{
    let rest = without_subscriber(subscribers, subscriber);
    if subscribers.len() > 0 {
        let front = subscribers.drop_last();
        let last = subscribers.last();
        let front_rest = without_subscriber(front, subscriber);
        lemma_without_subscriber(front, subscriber);
        assert forall|other: u64| other != subscriber implies (#[trigger] rest.contains(other)
            <==> subscribers.contains(other)) by {
            if rest.contains(other) {
                let k = choose|k: int| 0 <= k < rest.len() && rest[k] == other;
                if k < front_rest.len() {
                    assert(front_rest[k] == other);
                    assert(front_rest.contains(other));
                    let i = choose|i: int| 0 <= i < front.len() && front[i] == other;
                    assert(subscribers[i] == other);
                } else {
                    assert(subscribers[subscribers.len() - 1] == other);
                }
            }
            if subscribers.contains(other) {
                let i = choose|i: int| 0 <= i < subscribers.len() && subscribers[i] == other;
                if i < front.len() {
                    assert(front[i] == other);
                    assert(front.contains(other));
                    assert(front_rest.contains(other));
                    let k = choose|k: int| 0 <= k < front_rest.len() && front_rest[k] == other;
                    assert(rest[k] == other);
                } else {
                    assert(rest[rest.len() - 1] == other);
                }
            }
        }
        if rest.contains(subscriber) {
            let k = choose|k: int| 0 <= k < rest.len() && rest[k] == subscriber;
            if k < front_rest.len() {
                assert(front_rest[k] == subscriber);
            }
        }
        if subscribers.no_duplicates() {
            assert(front.no_duplicates());
            if last != subscriber {
                assert forall|a: int, b: int|
                    0 <= a < rest.len() && 0 <= b < rest.len() && a != b implies rest[a]
                    != rest[b] by {
                    if a < front_rest.len() && b < front_rest.len() {
                    } else {
                        let inner = if a < b {
                            a
                        } else {
                            b
                        };
                        assert(front_rest[inner] == rest[inner]);
                        assert(front_rest.contains(rest[inner]));
                        if rest[inner] == last {
                            let i = choose|i: int| 0 <= i < front.len() && front[i] == last;
                            assert(subscribers[i] == subscribers[subscribers.len() - 1]);
                        }
                    }
                }
            }
        }
    }
}

/// Fan-out. A published message goes to every subscriber, once to each
/// and only to them: the deliveries are as many as the subscribers, the
/// one at place `i` is for subscriber `i`, and it holds the message and
/// nothing else.
pub proof fn lemma_fan_out(hub: BridgeServerView, message: IpcActivityMessageView)
    ensures
        hub.publish(message).1.len() == hub.subscribers.len(),
        forall|i: int|
            0 <= i < hub.subscribers.len() ==> {
                &&& (#[trigger] hub.publish(message).1[i]).subscriber == hub.subscribers[i]
                &&& hub.publish(message).1[i].commands == seq![
                    BridgeCommandView::Message(message),
                ]
            },
        forall|i: int|
            0 <= i < hub.publish(message).1.len() ==> hub.subscribers.contains(
                (#[trigger] hub.publish(message).1[i]).subscriber,
            ),
{
}

/// Catching up comes before any later update. A subscriber that has just
/// joined is registered once, whether or not it was before: it was sent
/// the live entries of the table as they stood, and of a message
/// published from then on it gets exactly one copy. A message published
/// while it is not registered does not reach it.
pub proof fn lemma_subscribe_then_publish(
    hub: BridgeServerView,
    subscriber: u64,
    message: IpcActivityMessageView,
)
    requires
        hub.well_formed(),
    ensures
        ({
            let (joined, catch_up) = hub.subscribe(subscriber);
            let deliveries = joined.publish(message).1;
            &&& catch_up == live(hub.activity)
            &&& joined.well_formed()
            &&& joined.activity == hub.activity
            &&& exists|i: int|
                0 <= i < deliveries.len() && (#[trigger] deliveries[i]).subscriber == subscriber
                    && deliveries[i].commands == seq![BridgeCommandView::Message(message)]
            &&& forall|i: int, j: int|
                0 <= i < deliveries.len() && 0 <= j < deliveries.len() && (
                #[trigger] deliveries[i]).subscriber == subscriber && (
                #[trigger] deliveries[j]).subscriber == subscriber ==> i == j
        }),
        !hub.subscribers.contains(subscriber) ==> forall|i: int|
            0 <= i < hub.publish(message).1.len() ==> (#[trigger] hub.publish(
                message,
            ).1[i]).subscriber != subscriber,
{
    let (joined, catch_up) = hub.subscribe(subscriber);
    let deliveries = joined.publish(message).1;
    assert(joined.subscribers.contains(subscriber)) by {
        if !hub.subscribers.contains(subscriber) {
            assert(joined.subscribers[joined.subscribers.len() - 1] == subscriber);
        }
    }
    let at = choose|i: int| 0 <= i < joined.subscribers.len() && joined.subscribers[i] == subscriber;
    assert(deliveries[at].subscriber == subscriber);
    assert(joined.subscribers.no_duplicates()) by {
        if !hub.subscribers.contains(subscriber) {
            assert forall|a: int, b: int|
                0 <= a < joined.subscribers.len() && 0 <= b < joined.subscribers.len() && a
                    != b implies joined.subscribers[a] != joined.subscribers[b] by {
                if a < hub.subscribers.len() && b < hub.subscribers.len() {
                } else if a < hub.subscribers.len() {
                    assert(hub.subscribers[a] == joined.subscribers[a]);
                } else {
                    assert(hub.subscribers[b] == joined.subscribers[b]);
                }
            }
        }
    }
    if !hub.subscribers.contains(subscriber) {
        assert forall|i: int| 0 <= i < hub.publish(message).1.len() implies (
        #[trigger] hub.publish(message).1[i]).subscriber != subscriber by {
            assert(hub.subscribers[i] == hub.publish(message).1[i].subscriber);
        }
    }
}

/// Shutdown clearing. When the hub shuts down, every subscriber gets one
/// delivery: for each session of the table one message without activity,
/// in the table's order, and after them the close. So each session that
/// was live is cleared exactly once for each subscriber before it is
/// disconnected. Afterwards no subscriber is left and no session is
/// live.
pub proof fn lemma_shutdown_clears(hub: BridgeServerView)
    requires
        hub.well_formed(),
    ensures
        ({
            let (after, deliveries) = hub.close();
            let table = hub.activity;
            &&& deliveries.len() == hub.subscribers.len()
            &&& forall|i: int|
                0 <= i < deliveries.len() ==> {
                    let commands = (#[trigger] deliveries[i]).commands;
                    &&& deliveries[i].subscriber == hub.subscribers[i]
                    &&& commands.len() == table.len() + 1
                    &&& commands.last() == BridgeCommandView::Close
                    &&& forall|j: int|
                        0 <= j < table.len() ==> #[trigger] commands[j]
                            == BridgeCommandView::Message(
                            IpcActivityMessageView { activity: None, ..table[j] },
                        )
                    &&& forall|socket_id: Seq<char>| #[trigger]
                        live_sessions(table).contains(socket_id) ==> exists|j: int|
                            0 <= j < table.len() && #[trigger] commands[j]
                                == BridgeCommandView::Message(
                                IpcActivityMessageView {
                                    activity: None,
                                    ..entry(table, socket_id)->0
                                },
                            )
                }
            &&& after.subscribers.len() == 0
            &&& after.well_formed()
            &&& live(after.activity).len() == 0
            &&& live_sessions(after.activity) == Set::<Seq<char>>::empty()
        }),
{
    let (after, deliveries) = hub.close();
    let table = hub.activity;
    assert forall|i: int| 0 <= i < deliveries.len() implies {
        let commands = (#[trigger] deliveries[i]).commands;
        forall|socket_id: Seq<char>| #[trigger]
            live_sessions(table).contains(socket_id) ==> exists|j: int|
                0 <= j < table.len() && #[trigger] commands[j] == BridgeCommandView::Message(
                    IpcActivityMessageView { activity: None, ..entry(table, socket_id)->0 },
                )
    } by {
        let commands = deliveries[i].commands;
        assert forall|socket_id: Seq<char>| #[trigger]
            live_sessions(table).contains(socket_id) implies exists|j: int|
            0 <= j < table.len() && #[trigger] commands[j] == BridgeCommandView::Message(
                IpcActivityMessageView { activity: None, ..entry(table, socket_id)->0 },
            ) by {
            let j = position(table, socket_id)->0;
            assert(is_first_entry(table, socket_id, j));
            assert(commands[j] == BridgeCommandView::Message(cleared_message(table[j])));
        }
    }
    assert(distinct_sessions(after.activity)) by {
        assert forall|a: int, b: int| 0 <= a < b < after.activity.len() implies (
        #[trigger] after.activity[a]).socket_id != (#[trigger] after.activity[b]).socket_id by {
            assert(table[a].socket_id != table[b].socket_id);
        }
    }
    lemma_catch_up_complete(after.activity);
    lemma_live_members(after.activity);
    if live(after.activity).len() > 0 {
        let message = live(after.activity)[0];
        let i = choose|i: int| 0 <= i < after.activity.len() && #[trigger] after.activity[i] == message;
        assert(after.activity[i].activity is None);
    }
    assert(live_sessions(after.activity) =~= Set::<Seq<char>>::empty()) by {
        assert forall|socket_id: Seq<char>| !live_sessions(after.activity).contains(
            socket_id,
        ) by {
            if live_sessions(after.activity).contains(socket_id) {
                let k = choose|k: int|
                    0 <= k < live(after.activity).len() && #[trigger] live(after.activity)[k]
                        == entry(after.activity, socket_id)->0;
            }
        }
    }
}

/// Every step of the hub keeps it well-formed.
pub proof fn lemma_hub_stays_well_formed(
    hub: BridgeServerView,
    subscriber: u64,
    message: IpcActivityMessageView,
)
    requires
        hub.well_formed(),
    ensures
        BridgeServerView::empty().well_formed(),
        hub.subscribe(subscriber).0.well_formed(),
        hub.unsubscribe(subscriber).well_formed(),
        hub.publish(message).0.well_formed(),
        hub.close().0.well_formed(),
{
    lemma_subscribe_then_publish(hub, subscriber, message);
    lemma_without_subscriber(hub.subscribers, subscriber);
    lemma_upsert(hub.activity, message);
    lemma_shutdown_clears(hub);
}

} // verus!
