//! The surface through which a control program reaches its ship: the
//! requests it may make, the channel that carries them, and the bindings
//! that a script calls.

use vstd::prelude::*;
use vstd::string::StringExecFns;
use crate::math::saturate;
use super::{HandleView, ShipHandle};

verus! {

/// An action that a control program asks of its ship. A distance is in
/// thousandths of a unit, an angle in thousandths of a degree.
#[derive(Clone, Copy, Debug, PartialEq, Eq, Structural)]
pub enum APIRequest {
    Move(i32),
    Turn(i32),
    Shoot,
}

/// Why a request could not be sent.
#[derive(Clone, Copy, Debug, PartialEq, Eq, Structural)]
pub enum SendError {
    /// The ship's end of the channel is gone.
    Closed,
    /// The last request has not been acknowledged yet.
    Busy,
}

/// What a channel holds: the request that waits to be received, whether the
/// control program is suspended, and whether the ship still listens.
pub struct ChannelView {
    pub pending: Option<APIRequest>,
    pub parked: bool,
    pub open: bool,
}

impl ChannelView {
    /// A request waits only while the control program is suspended.
    pub open spec fn wf(self) -> bool {
        self.pending.is_some() ==> self.parked
    }

    /// The number of requests that were sent and not yet acknowledged.
    pub open spec fn unacknowledged(self) -> nat {
        if self.parked {
            1
        } else {
            0
        }
    }

    /// A request can be sent now.
    pub open spec fn accepts(self) -> bool {
        self.open && !self.parked
    }

    /// The channel after `request` was sent.
    pub open spec fn sent(self, request: APIRequest) -> ChannelView {
        ChannelView { pending: Some(request), parked: true, open: self.open }
    }

    /// The channel after the ship looked for a request.
    pub open spec fn received(self) -> ChannelView {
        ChannelView { pending: None, ..self }
    }

    /// The channel after the ship signalled that an action is complete. The
    /// signal ends the suspension, unless a request still waits to be
    /// received: then no action is under way that could be complete.
    pub open spec fn resumed(self) -> ChannelView {
        if self.pending.is_some() {
            self
        } else {
            ChannelView { parked: false, ..self }
        }
    }

    /// The channel after the ship stopped listening.
    pub open spec fn closed(self) -> ChannelView {
        ChannelView { open: false, ..self }
    }
}

/// The channel between one control program and its ship. It carries one
/// request at a time: sending suspends the control program, and only the
/// ship's signal that the action is complete lets it send again.
pub struct ActionChannel {
    pending: Option<APIRequest>,
    parked: bool,
    open: bool,
}

impl View for ActionChannel {
    type V = ChannelView;

    closed spec fn view(&self) -> ChannelView {
        ChannelView { pending: self.pending, parked: self.parked, open: self.open }
    }
}

impl ActionChannel {
    /// An open channel with nothing sent.
    pub fn new() -> (channel: ActionChannel)
        ensures
            channel@ == (ChannelView { pending: None, parked: false, open: true }),
            channel@.wf(),
    {
        ActionChannel { pending: None, parked: false, open: true }
    }

    /// Sends a request and suspends the control program. Fails, and changes
    /// nothing, when the channel is closed or a request is unacknowledged.
    pub fn send(&mut self, request: APIRequest) -> (res: Result<(), SendError>)
        ensures
            !old(self)@.open ==> res == Err::<(), SendError>(SendError::Closed),
            old(self)@.open && old(self)@.parked ==> res == Err::<(), SendError>(SendError::Busy),
            old(self)@.accepts() ==> res.is_ok(),
            res.is_ok() ==> final(self)@ == old(self)@.sent(request),
            res.is_err() ==> final(self)@ == old(self)@,
            old(self)@.wf() ==> final(self)@.wf(),
    {
        if !self.open {
            Err(SendError::Closed)
        } else if self.parked {
            Err(SendError::Busy)
        } else {
            self.pending = Some(request);
            self.parked = true;
            Ok(())
        }
    }

    /// Takes the waiting request, if there is one, without blocking.
    pub fn try_recv(&mut self) -> (request: Option<APIRequest>)
        ensures
            request == old(self)@.pending,
            final(self)@ == old(self)@.received(),
            old(self)@.wf() ==> final(self)@.wf(),
    {
        let request = self.pending;
        self.pending = None;
        request
    }

    /// Signals that the action is complete: the control program may go on.
    /// The signal counts for nothing while a request still waits to be
    /// received.
    pub fn unpark(&mut self)
        ensures
            final(self)@ == old(self)@.resumed(),
            old(self)@.wf() ==> final(self)@.wf(),
    {
        if self.pending.is_none() {
            self.parked = false;
        }
    }

    /// Stops listening: every later request fails.
    pub fn close(&mut self)
        ensures
            final(self)@ == old(self)@.closed(),
            old(self)@.wf() ==> final(self)@.wf(),
    {
        self.open = false;
    }

    /// Tells whether the control program is suspended.
    pub fn is_parked(&self) -> (parked: bool)
        ensures
            parked == self@.parked,
    {
        self.parked
    }

    /// Tells whether the ship still listens.
    pub fn is_open(&self) -> (open: bool)
        ensures
            open == self@.open,
    {
        self.open
    }
}

/// What one ship shares with its control program.
pub struct Context {
    pub channel: ActionChannel,
    pub handle: ShipHandle,
}

/// What a [`Context`] holds.
pub struct ContextView {
    pub channel: ChannelView,
    pub handle: HandleView,
}

impl View for Context {
    type V = ContextView;

    open spec fn view(&self) -> ContextView {
        ContextView { channel: self.channel@, handle: self.handle@ }
    }
}

impl Context {
    /// What a ship at `(x, y)` shares with its control program at the start.
    pub fn new(x: i32, y: i32) -> (context: Context)
        ensures
            context@ == (ContextView {
                channel: ChannelView { pending: None, parked: false, open: true },
                handle: ShipHandle::initial(x, y),
            }),
    {
        Context { channel: ActionChannel::new(), handle: ShipHandle::new(x, y) }
    }
}

/// What a slot holds that may or may not hold a context.
pub open spec fn slot_view(slot: Option<Context>) -> Option<ContextView> {
    match slot {
        Some(context) => Some(context@),
        None => None,
    }
}

/// The kinds of value that a script can pass.
#[derive(Clone, Copy, Debug, PartialEq, Eq, Structural)]
pub enum Kind {
    Boolean,
    Number,
    Text,
    Name,
    Scope,
    Nothing,
}

impl Kind {
    /// The word by which scripts know the kind.
    pub open spec fn word(self) -> Seq<char> {
        match self {
            Kind::Boolean => "boolean"@,
            Kind::Number => "number"@,
            Kind::Text => "string"@,
            Kind::Name => "name"@,
            Kind::Scope => "scope"@,
            Kind::Nothing => "none"@,
        }
    }

    pub fn to_string(&self) -> (word: String)
        ensures
            word@ == self.word(),
    {
        match self {
            Kind::Boolean => "boolean".to_owned(),
            Kind::Number => "number".to_owned(),
            Kind::Text => "string".to_owned(),
            Kind::Name => "name".to_owned(),
            Kind::Scope => "scope".to_owned(),
            Kind::Nothing => "none".to_owned(),
        }
    }
}

/// A value that passes between a script and a binding. A number counts
/// thousandths.
#[derive(Debug)]
pub enum Value {
    Boolean(bool),
    Number(i64),
    Text(String),
    Name,
    Scope,
    Nothing,
}

/// What a [`Value`] holds.
pub enum ValueView {
    Boolean(bool),
    Number(i64),
    Text(Seq<char>),
    Name,
    Scope,
    Nothing,
}

impl View for Value {
    type V = ValueView;

    open spec fn view(&self) -> ValueView {
        match self {
            Value::Boolean(b) => ValueView::Boolean(*b),
            Value::Number(n) => ValueView::Number(*n),
            Value::Text(s) => ValueView::Text(s@),
            Value::Name => ValueView::Name,
            Value::Scope => ValueView::Scope,
            Value::Nothing => ValueView::Nothing,
        }
    }
}

impl Value {
    /// The kind of the value.
    pub open spec fn kind(self) -> Kind {
        match self {
            Value::Boolean(_) => Kind::Boolean,
            Value::Number(_) => Kind::Number,
            Value::Text(_) => Kind::Text,
            Value::Name => Kind::Name,
            Value::Scope => Kind::Scope,
            Value::Nothing => Kind::Nothing,
        }
    }

    pub fn get_type(&self) -> (kind: Kind)
        ensures
            kind == self.kind(),
    {
        match self {
            Value::Boolean(_) => Kind::Boolean,
            Value::Number(_) => Kind::Number,
            Value::Text(_) => Kind::Text,
            Value::Name => Kind::Name,
            Value::Scope => Kind::Scope,
            Value::Nothing => Kind::Nothing,
        }
    }
}

/// The functions that a script can call on its ship.
#[derive(Clone, Copy, Debug, PartialEq, Eq, Structural)]
pub enum Binding {
    Move,
    Turn,
    Shoot,
    Raycast,
    RaycastDist,
    X,
    Y,
}

impl Binding {
    /// The name by which scripts call the function.
    pub open spec fn word(self) -> Seq<char> {
        match self {
            Binding::Move => "move"@,
            Binding::Turn => "turn"@,
            Binding::Shoot => "shoot"@,
            Binding::Raycast => "raycast"@,
            Binding::RaycastDist => "raycast_dist"@,
            Binding::X => "x"@,
            Binding::Y => "y"@,
        }
    }

    /// The function suspends the control program until its action is done.
    pub open spec fn blocks(self) -> bool {
        self == Binding::Move || self == Binding::Turn || self == Binding::Shoot
    }

    pub fn name(&self) -> (word: &'static str)
        ensures
            word@ == self.word(),
    {
        match self {
            Binding::Move => "move",
            Binding::Turn => "turn",
            Binding::Shoot => "shoot",
            Binding::Raycast => "raycast",
            Binding::RaycastDist => "raycast_dist",
            Binding::X => "x",
            Binding::Y => "y",
        }
    }
}

/// Why a call of a binding failed.
#[derive(Clone, Copy, Debug, PartialEq, Eq, Structural)]
pub enum BindingError {
    /// The argument is of the given kind, where a number was expected.
    ExpectedNumber(Binding, Kind),
    /// The call was made where no ship is attached.
    NoContext(Binding),
    /// The ship no longer listens.
    SendFailure(Binding),
    /// The ship has not yet completed the last action.
    Busy(Binding),
}

impl BindingError {
    /// The binding whose call failed.
    pub open spec fn binding(self) -> Binding {
        match self {
            BindingError::ExpectedNumber(b, _) => b,
            BindingError::NoContext(b) => b,
            BindingError::SendFailure(b) => b,
            BindingError::Busy(b) => b,
        }
    }

    /// The words in which the failure is reported.
    pub open spec fn text(self) -> Seq<char> {
        match self {
            BindingError::ExpectedNumber(_, kind) => "Expected a number, but instead got a "@
                + kind.word() + "."@,
            BindingError::NoContext(_) => "Cannot connect to api outside of module."@,
            BindingError::SendFailure(_) => "Failed to send API request."@,
            BindingError::Busy(_) => "The last action is not complete."@,
        }
    }

    pub fn message(&self) -> (text: String)
        ensures
            text@ == self.text(),
    {
        match self {
            BindingError::ExpectedNumber(_, kind) => {
                let head = "Expected a number, but instead got a ".to_owned();
                let word = kind.to_string();
                head.concat(word.as_str()).concat(".")
            },
            BindingError::NoContext(_) => "Cannot connect to api outside of module.".to_owned(),
            BindingError::SendFailure(_) => "Failed to send API request.".to_owned(),
            BindingError::Busy(_) => "The last action is not complete.".to_owned(),
        }
    }

    /// Where the failure arose: the module of the bindings and the name of
    /// the binding.
    pub fn source(&self) -> (text: String)
        ensures
            text@ == "robot_api:"@ + self.binding().word(),
    {
        let binding = match self {
            BindingError::ExpectedNumber(b, _) => *b,
            BindingError::NoContext(b) => *b,
            BindingError::SendFailure(b) => *b,
            BindingError::Busy(b) => *b,
        };
        "robot_api:".to_owned().concat(binding.name())
    }
}

/// What a call of a binding gives back, by its view.
pub open spec fn reply_view(reply: Result<Value, BindingError>) -> Result<ValueView, BindingError> {
    match reply {
        Ok(value) => Ok(value@),
        Err(error) => Err(error),
    }
}

/// What sending `request` for `binding` does to a slot, and what the
/// binding gives back: an empty slot has no ship to send to; a channel that
/// is closed or busy refuses; otherwise the request is sent and the control
/// program is suspended.
pub open spec fn posted(slot: Option<ContextView>, binding: Binding, request: APIRequest) -> (
    Option<ContextView>,
    Result<ValueView, BindingError>,
) {
    match slot {
        None => (slot, Err(BindingError::NoContext(binding))),
        Some(context) => if !context.channel.open {
            (slot, Err(BindingError::SendFailure(binding)))
        } else if context.channel.parked {
            (slot, Err(BindingError::Busy(binding)))
        } else {
            (
                Some(ContextView { channel: context.channel.sent(request), ..context }),
                Ok(ValueView::Nothing),
            )
        },
    }
}

/// What reading for `binding` gives back: the part of what the ship last
/// sensed that the binding stands for, and nothing for a binding that does
/// not read.
pub open spec fn read(slot: Option<ContextView>, binding: Binding) -> Result<
    ValueView,
    BindingError,
> {
    match slot {
        None => Err(BindingError::NoContext(binding)),
        Some(context) => match binding {
            Binding::Raycast => Ok(ValueView::Text(context.handle.raycast)),
            Binding::RaycastDist => Ok(ValueView::Number(context.handle.raycast_dist as i64)),
            Binding::X => Ok(ValueView::Number(context.handle.pos.x as i64)),
            Binding::Y => Ok(ValueView::Number(context.handle.pos.y as i64)),
            _ => Ok(ValueView::Nothing),
        },
    }
}

/// What a call of a binding that takes a number does: see [`posted`]. An
/// argument that is no number is refused before anything is sent, and a
/// number beyond what a request can hold is held back at the nearest value
/// that it can.
pub open spec fn asked(
    slot: Option<ContextView>,
    binding: Binding,
    arg: Value,
) -> (Option<ContextView>, Result<ValueView, BindingError>) {
    match arg {
        Value::Number(n) => posted(
            slot,
            binding,
            if binding == Binding::Move {
                APIRequest::Move(crate::math::clamp_coord(n as int) as i32)
            } else {
                APIRequest::Turn(crate::math::clamp_coord(n as int) as i32)
            },
        ),
        _ => (slot, Err(BindingError::ExpectedNumber(binding, arg.kind()))),
    }
}

/// Finds the channel of the ship that a slot holds.
fn get_sender(slot: &mut Option<Context>, binding: Binding) -> (res: Result<
    &mut ActionChannel,
    BindingError,
>)
    ensures
        old(slot).is_none() ==> res == Err::<&mut ActionChannel, BindingError>(
            BindingError::NoContext(binding),
        ) && final(slot).is_none(),
        *old(slot) matches Some(context) ==> res matches Ok(channel) && *channel == context.channel
            && *final(slot) == Some(Context { channel: *final(channel), handle: context.handle }),
{
    match slot {
        Some(context) => Ok(&mut context.channel),
        None => Err(BindingError::NoContext(binding)),
    }
}

/// Finds what the ship that a slot holds last sensed.
fn get_mutex(slot: &Option<Context>, binding: Binding) -> (res: Result<&ShipHandle, BindingError>)
    ensures
        slot.is_none() ==> res == Err::<&ShipHandle, BindingError>(BindingError::NoContext(binding)),
        slot matches Some(context) ==> res == Ok::<&ShipHandle, BindingError>(&context.handle),
{
    match slot {
        Some(context) => Ok(&context.handle),
        None => Err(BindingError::NoContext(binding)),
    }
}

/// Sends `request` to the ship that the slot holds: see [`posted`].
fn post(binding: Binding, request: APIRequest, slot: &mut Option<Context>) -> (res: Result<
    Value,
    BindingError,
>)
    ensures
        (slot_view(*final(slot)), reply_view(res)) == posted(slot_view(*old(slot)), binding, request),
{
    let sender = get_sender(slot, binding)?;
    match sender.send(request) {
        Ok(()) => Ok(Value::Nothing),
        Err(SendError::Closed) => Err(BindingError::SendFailure(binding)),
        Err(SendError::Busy) => Err(BindingError::Busy(binding)),
    }
}

/// `move(distance)`: asks the ship to move by a distance along its heading,
/// backwards where the distance is negative. On success the control program
/// is suspended until the ship has completed the move.
pub fn fn_move(args: &Vec<Value>, slot: &mut Option<Context>) -> (res: Result<Value, BindingError>)
    requires
        args@.len() > 0,
    ensures
        (slot_view(*final(slot)), reply_view(res)) == asked(
            slot_view(*old(slot)),
            Binding::Move,
            args@[0],
        ),
{
    let d = match &args[0] {
        Value::Number(d) => *d,
        other => {
            return Err(BindingError::ExpectedNumber(Binding::Move, other.get_type()));
        },
    };
    post(Binding::Move, APIRequest::Move(saturate(d as i128)), slot)
}

/// `turn(degrees)`: asks the ship to turn by an angle. On success the
/// control program is suspended until the ship has completed the turn.
pub fn fn_turn(args: &Vec<Value>, slot: &mut Option<Context>) -> (res: Result<Value, BindingError>)
    requires
        args@.len() > 0,
    ensures
        (slot_view(*final(slot)), reply_view(res)) == asked(
            slot_view(*old(slot)),
            Binding::Turn,
            args@[0],
        ),
{
    let d = match &args[0] {
        Value::Number(d) => *d,
        other => {
            return Err(BindingError::ExpectedNumber(Binding::Turn, other.get_type()));
        },
    };
    post(Binding::Turn, APIRequest::Turn(saturate(d as i128)), slot)
}

/// `shoot()`: asks the ship to fire. On success the control program is
/// suspended until the ship has cooled down.
pub fn fn_shoot(slot: &mut Option<Context>) -> (res: Result<Value, BindingError>)
    ensures
        (slot_view(*final(slot)), reply_view(res)) == posted(
            slot_view(*old(slot)),
            Binding::Shoot,
            APIRequest::Shoot,
        ),
{
    post(Binding::Shoot, APIRequest::Shoot, slot)
}

/// `raycast()`: what the ship's ray last met. Sends nothing and never
/// suspends.
pub fn fn_raycast(slot: &Option<Context>) -> (res: Result<Value, BindingError>)
    ensures
        reply_view(res) == read(slot_view(*slot), Binding::Raycast),
{
    let handle = get_mutex(slot, Binding::Raycast)?;
    Ok(Value::Text(handle.raycast()))
}

/// `raycast_dist()`: how far the ship's ray last travelled. Sends nothing
/// and never suspends.
pub fn fn_raycast_dist(slot: &Option<Context>) -> (res: Result<Value, BindingError>)
    ensures
        reply_view(res) == read(slot_view(*slot), Binding::RaycastDist),
{
    let handle = get_mutex(slot, Binding::RaycastDist)?;
    Ok(Value::Number(handle.raycast_dist()))
}

/// `x()`: where the ship last stood, along the x axis. Sends nothing and
/// never suspends.
pub fn fn_x(slot: &Option<Context>) -> (res: Result<Value, BindingError>)
    ensures
        reply_view(res) == read(slot_view(*slot), Binding::X),
{
    let handle = get_mutex(slot, Binding::X)?;
    Ok(Value::Number(handle.pos().x as i64))
}

/// `y()`: where the ship last stood, along the y axis. Sends nothing and
/// never suspends.
pub fn fn_y(slot: &Option<Context>) -> (res: Result<Value, BindingError>)
    ensures
        reply_view(res) == read(slot_view(*slot), Binding::Y),
{
    let handle = get_mutex(slot, Binding::Y)?;
    Ok(Value::Number(handle.pos().y as i64))
}

/// The bindings in the order in which they are made known to a script.
pub open spec fn surface() -> Seq<Binding> {
    seq![
        Binding::Move,
        Binding::Turn,
        Binding::Shoot,
        Binding::Raycast,
        Binding::RaycastDist,
        Binding::X,
        Binding::Y,
    ]
}

/// Lists every binding with the name under which a script calls it.
pub fn construct() -> (module: Vec<(&'static str, Binding)>)
    ensures
        module@.len() == surface().len(),
        forall|i: int|
            0 <= i < module@.len() ==> (#[trigger] module@[i]).1 == surface()[i] && module@[i].0@
                == surface()[i].word(),
{
    let mut module: Vec<(&'static str, Binding)> = Vec::new();
    module.push((Binding::Move.name(), Binding::Move));
    module.push((Binding::Turn.name(), Binding::Turn));
    module.push((Binding::Shoot.name(), Binding::Shoot));
    module.push((Binding::Raycast.name(), Binding::Raycast));
    module.push((Binding::RaycastDist.name(), Binding::RaycastDist));
    module.push((Binding::X.name(), Binding::X));
    module.push((Binding::Y.name(), Binding::Y));
    module
}

/// What a call of `binding` does to a slot and gives back.
pub open spec fn called(slot: Option<ContextView>, binding: Binding, args: Seq<Value>) -> (
    Option<ContextView>,
    Result<ValueView, BindingError>,
) {
    match binding {
        Binding::Move => asked(slot, binding, args[0]),
        Binding::Turn => asked(slot, binding, args[0]),
        Binding::Shoot => posted(slot, binding, APIRequest::Shoot),
        _ => (slot, read(slot, binding)),
    }
}

/// Calls a binding with the arguments that the script passed.
pub fn call(binding: Binding, args: &Vec<Value>, slot: &mut Option<Context>) -> (res: Result<
    Value,
    BindingError,
>)
    requires
        binding == Binding::Move || binding == Binding::Turn ==> args@.len() > 0,
    ensures
        (slot_view(*final(slot)), reply_view(res)) == called(slot_view(*old(slot)), binding, args@),
{
    match binding {
        Binding::Move => fn_move(args, slot),
        Binding::Turn => fn_turn(args, slot),
        Binding::Shoot => fn_shoot(slot),
        Binding::Raycast => fn_raycast(slot),
        Binding::RaycastDist => fn_raycast_dist(slot),
        Binding::X => fn_x(slot),
        Binding::Y => fn_y(slot),
    }
}

/// A channel never holds more than one unacknowledged request. A request
/// that is sent suspends the control program, and nothing more can be sent
/// until the ship signals that the action is complete: receiving the request
/// does not end the suspension, the signal does.
pub proof fn lemma_one_request_at_a_time(channel: ChannelView, request: APIRequest)
    requires
        channel.wf(),
    ensures
        channel.unacknowledged() <= 1,
        channel.pending.is_some() ==> channel.unacknowledged() == 1,
        channel.accepts() ==> channel.unacknowledged() == 0 && channel.sent(request).wf()
            && channel.sent(request).unacknowledged() == 1,
        !channel.sent(request).accepts(),
        channel.parked ==> !channel.accepts() && channel.received().parked
            && !channel.received().accepts(),
        channel.pending.is_none() ==> !channel.resumed().parked,
        channel.resumed().wf(),
        channel.received().wf(),
{
}

/// While its control program is suspended, a call of a binding that sends
/// is refused and changes nothing, and a call of a binding that reads
/// changes nothing and is answered.
pub proof fn lemma_calls_while_suspended(context: ContextView, binding: Binding, args: Seq<Value>)
    requires
        context.channel.parked,
        binding == Binding::Move || binding == Binding::Turn ==> args.len() > 0,
    ensures
        called(Some(context), binding, args).0 == Some(context),
        binding.blocks() ==> called(Some(context), binding, args).1.is_err(),
        !binding.blocks() ==> called(Some(context), binding, args).1.is_ok(),
{
}

} // verus!
