use std::fmt::Debug;
use vstd::prelude::*;

verus! {

/// A pair of coordinates.
#[derive(Debug, Copy, PartialEq, Eq, Structural)]
pub struct Point<T: Debug> {
    pub x: T,
    pub y: T,
}

impl<T: Debug + Copy> Clone for Point<T> {
    fn clone(&self) -> (copy: Self)
        ensures
            copy == *self,
    {
        *self
    }
}

/// What the display server can tell a window.
///
/// Only the first eleven variants are ever produced by [`decode`]; every other
/// message becomes [`Event::UnimplementedEvent`].
#[derive(Debug, Clone, Copy, PartialEq, Eq, Structural)]
pub enum Event {
    KeyPress(u8),
    KeyRelease(u8),
    ButtonPress(u8, Point<i16>),
    ButtonRelease(u8, Point<i16>),
    MotionNotify(Point<i16>),
    EnterNotify,
    LeaveNotify,
    FocusIn,
    FocusOut,
    KeymapNotify,
    Expose,
    GraphicsExposure,
    NoExposure,
    VisibilityNotify,
    CreateNotify,
    DestroyNotify,
    UnmapNotify,
    MapNotify,
    MapRequest,
    ReparentNotify,
    ConfigureRequest,
    GravityNotify,
    ResizeRequest,
    CirculateNotify,
    CirculateRequest,
    PropertyNotify,
    SelectionClear,
    SelectionRequest,
    SelectionNotify,
    ColormapNotify,
    ClientMessage,
    MappingNotify,
    UnimplementedEvent,
}

/// The byte order that client and server agreed on when the session was set up.
#[derive(Debug, Clone, Copy, PartialEq, Eq, Structural)]
pub enum Endian {
    Little,
    Big,
}

/// Why a server message could not be decoded.
#[derive(Debug, Clone, Copy, PartialEq, Eq, Structural)]
pub enum DecodeError {
    /// The message holds no byte at all, not even a tag.
    Empty,
    /// The tag announces a key, button or motion event, but the message is
    /// shorter than the layout of such an event.
    Truncated { tag: u8, length: usize },
}

/// Length in bytes of a key, button or motion event on the wire.
pub const INPUT_EVENT_LENGTH: usize = 32;

/// Offset of the key or button code in a key or button event.
pub const DETAIL_OFFSET: usize = 1;

/// Offset of the window-relative x coordinate in a key, button or motion event.
pub const EVENT_X_OFFSET: usize = 24;

/// Offset of the window-relative y coordinate in a key, button or motion event.
pub const EVENT_Y_OFFSET: usize = 26;

/// Whether `tag` announces an event whose payload is read: a key, a button or
/// a pointer motion.
pub open spec fn carries_payload(tag: u8) -> bool {
    2 <= tag <= 6
}

/// The signed 16-bit number that two consecutive bytes of a message stand for
/// (two's complement).
pub open spec fn coordinate(first: u8, second: u8, order: Endian) -> int {
    let low: int = if order == Endian::Little { first as int } else { second as int };
    let high: int = if order == Endian::Little { second as int } else { first as int };
    if high < 128 {
        high * 256 + low
    } else {
        high * 256 + low - 65536
    }
}

/// The pointer position that a key, button or motion event of at least
/// [`INPUT_EVENT_LENGTH`] bytes carries.
pub open spec fn location(message: Seq<u8>, order: Endian) -> Point<i16> {
    Point {
        x: coordinate(message[EVENT_X_OFFSET as int], message[EVENT_X_OFFSET + 1], order) as i16,
        y: coordinate(message[EVENT_Y_OFFSET as int], message[EVENT_Y_OFFSET + 1], order) as i16,
    }
}

/// The event that a message whose payload, if any, is complete stands for.
pub open spec fn event_of(message: Seq<u8>, order: Endian) -> Event {
    let tag = message[0];
    let detail = message[DETAIL_OFFSET as int];
    if tag == 2 {
        Event::KeyPress(detail)
    } else if tag == 3 {
        Event::KeyRelease(detail)
    } else if tag == 4 {
        Event::ButtonPress(detail, location(message, order))
    } else if tag == 5 {
        Event::ButtonRelease(detail, location(message, order))
    } else if tag == 6 {
        Event::MotionNotify(location(message, order))
    } else if tag == 7 {
        Event::EnterNotify
    } else if tag == 8 {
        Event::LeaveNotify
    } else if tag == 9 {
        Event::FocusIn
    } else if tag == 10 {
        Event::FocusOut
    } else if tag == 11 {
        Event::KeymapNotify
    } else if tag == 12 {
        Event::Expose
    } else {
        Event::UnimplementedEvent
    }
}

/// What decoding a server message gives: the first byte is the tag; a key,
/// button or motion event must be complete; no other message is read past
/// its tag.
pub open spec fn decode_spec(message: Seq<u8>, order: Endian) -> Result<Event, DecodeError> {
    if message.len() == 0 {
        Err(DecodeError::Empty)
    } else if carries_payload(message[0]) && message.len() < INPUT_EVENT_LENGTH {
        Err(DecodeError::Truncated { tag: message[0], length: message.len() as usize })
    } else {
        Ok(event_of(message, order))
    }
}

/// Every pair of bytes stands for a number that fits in sixteen bits with a
/// sign, and swapping the bytes is the same as reading them in the other byte
/// order.
pub proof fn lemma_coordinate_fits(first: u8, second: u8, order: Endian)
    ensures
        i16::MIN <= coordinate(first, second, order) <= i16::MAX,
        coordinate(first, second, Endian::Little) == coordinate(second, first, Endian::Big),
{
}

/// Reads the signed 16-bit number that `first` and `second` stand for.
fn read_coordinate(first: u8, second: u8, order: Endian) -> (value: i16)
    ensures
        value as int == coordinate(first, second, order),
{
    let (low, high) = match order {
        Endian::Little => (first, second),
        Endian::Big => (second, first),
    };
    let unsigned: i32 = (high as i32) * 256 + (low as i32);
    if high < 128 {
        unsigned as i16
    } else {
        (unsigned - 65536) as i16
    }
}

/// Reads the pointer position out of a complete key, button or motion event.
fn read_location(message: &[u8], order: Endian) -> (point: Point<i16>)
    requires
        message@.len() >= INPUT_EVENT_LENGTH,
    ensures
        point == location(message@, order),
{
    let x: i16 = read_coordinate(message[EVENT_X_OFFSET], message[EVENT_X_OFFSET + 1], order);
    let y: i16 = read_coordinate(message[EVENT_Y_OFFSET], message[EVENT_Y_OFFSET + 1], order);
    Point { x, y }
}

/// Decodes one server message.
///
/// The length of the message is checked against the layout that its tag
/// announces before any payload byte is read.
pub fn decode(message: &[u8], order: Endian) -> (result: Result<Event, DecodeError>)
    ensures
        result == decode_spec(message@, order),
{
    if message.len() == 0 {
        return Err(DecodeError::Empty);
    }
    let tag: u8 = message[0];
    if 2 <= tag && tag <= 6 && message.len() < INPUT_EVENT_LENGTH {
        return Err(DecodeError::Truncated { tag, length: message.len() });
    }
    let event = match tag {
        2 => Event::KeyPress(message[DETAIL_OFFSET]),
        3 => Event::KeyRelease(message[DETAIL_OFFSET]),
        4 => Event::ButtonPress(message[DETAIL_OFFSET], read_location(message, order)),
        5 => Event::ButtonRelease(message[DETAIL_OFFSET], read_location(message, order)),
        6 => Event::MotionNotify(read_location(message, order)),
        7 => Event::EnterNotify,
        8 => Event::LeaveNotify,
        9 => Event::FocusIn,
        10 => Event::FocusOut,
        11 => Event::KeymapNotify,
        12 => Event::Expose,
        _ => Event::UnimplementedEvent,
    };
    Ok(event)
}

pub const EVENT_MASK_NO_EVENT: u32 = 0;

pub const EVENT_MASK_KEY_PRESS: u32 = 0x0000_0001;

pub const EVENT_MASK_KEY_RELEASE: u32 = 0x0000_0002;

pub const EVENT_MASK_BUTTON_PRESS: u32 = 0x0000_0004;

pub const EVENT_MASK_BUTTON_RELEASE: u32 = 0x0000_0008;

pub const EVENT_MASK_ENTER_WINDOW: u32 = 0x0000_0010;

pub const EVENT_MASK_LEAVE_WINDOW: u32 = 0x0000_0020;

pub const EVENT_MASK_POINTER_MOTION: u32 = 0x0000_0040;

pub const EVENT_MASK_POINTER_MOTION_HINT: u32 = 0x0000_0080;

pub const EVENT_MASK_BUTTON_1_MOTION: u32 = 0x0000_0100;

pub const EVENT_MASK_BUTTON_2_MOTION: u32 = 0x0000_0200;

pub const EVENT_MASK_BUTTON_3_MOTION: u32 = 0x0000_0400;

pub const EVENT_MASK_BUTTON_4_MOTION: u32 = 0x0000_0800;

pub const EVENT_MASK_BUTTON_5_MOTION: u32 = 0x0000_1000;

pub const EVENT_MASK_BUTTON_MOTION: u32 = 0x0000_2000;

pub const EVENT_MASK_KEYMAP_STATE: u32 = 0x0000_4000;

pub const EVENT_MASK_EXPOSURE: u32 = 0x0000_8000;

pub const EVENT_MASK_VISIBILITY_CHANGE: u32 = 0x0001_0000;

pub const EVENT_MASK_STRUCTURE_NOTIFY: u32 = 0x0002_0000;

pub const EVENT_MASK_RESIZE_REDIRECT: u32 = 0x0004_0000;

pub const EVENT_MASK_SUBSTRUCTURE_NOTIFY: u32 = 0x0008_0000;

pub const EVENT_MASK_SUBSTRUCTURE_REDIRECT: u32 = 0x0010_0000;

pub const EVENT_MASK_FOCUS_CHANGE: u32 = 0x0020_0000;

pub const EVENT_MASK_PROPERTY_CHANGE: u32 = 0x0040_0000;

pub const EVENT_MASK_COLOR_MAP_CHANGE: u32 = 0x0080_0000;

pub const EVENT_MASK_OWNER_GRAB_BUTTON: u32 = 0x0100_0000;

/// Every event category that a window can select: the lowest twenty-five bits.
pub const EVENT_MASK_ALL: u32 = 0x01ff_ffff;

/// Depth value that makes a window take the depth of its parent.
pub const COPY_FROM_PARENT: u8 = 0;

/// Class of a window that both receives input and is drawn.
pub const WINDOW_CLASS_INPUT_OUTPUT: u16 = 1;

pub const DEFAULT_X: i16 = 0;

pub const DEFAULT_Y: i16 = 0;

pub const DEFAULT_WIDTH: u16 = 800;

pub const DEFAULT_HEIGHT: u16 = 500;

pub const DEFAULT_BORDER_WIDTH: u16 = 10;

/// [`EVENT_MASK_ALL`] is the union of the event categories, one by one, and
/// so holds each of them.
pub proof fn lemma_event_mask_all_is_union()
    ensures
        EVENT_MASK_ALL == (EVENT_MASK_BUTTON_1_MOTION | EVENT_MASK_BUTTON_2_MOTION
            | EVENT_MASK_BUTTON_3_MOTION | EVENT_MASK_BUTTON_4_MOTION | EVENT_MASK_BUTTON_5_MOTION
            | EVENT_MASK_BUTTON_MOTION | EVENT_MASK_BUTTON_PRESS | EVENT_MASK_BUTTON_RELEASE
            | EVENT_MASK_COLOR_MAP_CHANGE | EVENT_MASK_ENTER_WINDOW | EVENT_MASK_EXPOSURE
            | EVENT_MASK_FOCUS_CHANGE | EVENT_MASK_KEYMAP_STATE | EVENT_MASK_KEY_PRESS
            | EVENT_MASK_KEY_RELEASE | EVENT_MASK_LEAVE_WINDOW | EVENT_MASK_NO_EVENT
            | EVENT_MASK_OWNER_GRAB_BUTTON | EVENT_MASK_POINTER_MOTION
            | EVENT_MASK_POINTER_MOTION_HINT | EVENT_MASK_PROPERTY_CHANGE
            | EVENT_MASK_RESIZE_REDIRECT | EVENT_MASK_STRUCTURE_NOTIFY
            | EVENT_MASK_SUBSTRUCTURE_NOTIFY | EVENT_MASK_SUBSTRUCTURE_REDIRECT
            | EVENT_MASK_VISIBILITY_CHANGE),
{
    assert(0x01ff_ffffu32 == (0x0000_0100u32 | 0x0000_0200u32 | 0x0000_0400u32 | 0x0000_0800u32
        | 0x0000_1000u32 | 0x0000_2000u32 | 0x0000_0004u32 | 0x0000_0008u32 | 0x0080_0000u32
        | 0x0000_0010u32 | 0x0000_8000u32 | 0x0020_0000u32 | 0x0000_4000u32 | 0x0000_0001u32
        | 0x0000_0002u32 | 0x0000_0020u32 | 0u32 | 0x0100_0000u32 | 0x0000_0040u32 | 0x0000_0080u32
        | 0x0040_0000u32 | 0x0004_0000u32 | 0x0002_0000u32 | 0x0008_0000u32 | 0x0010_0000u32
        | 0x0001_0000u32)) by (bit_vector);
}

/// What a window needs to know of the screen it is created on.
#[derive(Debug, Clone, Copy, PartialEq, Eq, Structural)]
pub struct Screen {
    /// Identifier of the screen's root window.
    pub root: u32,
    /// Identifier of the root window's visual.
    pub root_visual: u32,
    /// Pixel value of white on this screen.
    pub white_pixel: u32,
}

/// Picks the default screen of a session: the one at position `screen_num`
/// among the screens that the server announced, if there is one.
pub fn default_screen(screens: &Vec<Screen>, screen_num: usize) -> (picked: Option<Screen>)
    ensures
        picked == (if screen_num < screens@.len() {
            Some(screens@[screen_num as int])
        } else {
            None
        }),
{
    if screen_num < screens.len() {
        Some(screens[screen_num])
    } else {
        None
    }
}

/// The parameters of a request to create a window.
#[derive(Debug, Clone, Copy, PartialEq, Eq, Structural)]
pub struct CreateWindow {
    pub depth: u8,
    pub window: u32,
    pub parent: u32,
    pub x: i16,
    pub y: i16,
    pub width: u16,
    pub height: u16,
    pub border_width: u16,
    pub class: u16,
    pub visual: u32,
    pub back_pixel: u32,
    pub event_mask: u32,
}

/// A request that a window wants sent to the display server.
#[derive(Debug, Clone, Copy, PartialEq, Eq, Structural)]
pub enum Request {
    /// Create the window.
    CreateWindow(CreateWindow),
    /// Make the window with this identifier visible.
    MapWindow(u32),
}

/// The request that creates window `id` on `screen`: 800 by 500 at the
/// origin of the root window, with a border of 10, a white background, the
/// root's depth and visual, and every event category selected.
pub open spec fn creation_request(id: u32, screen: Screen) -> CreateWindow {
    CreateWindow {
        depth: 0,
        window: id,
        parent: screen.root,
        x: 0,
        y: 0,
        width: 800,
        height: 500,
        border_width: 10,
        class: 1,
        visual: screen.root_visual,
        back_pixel: screen.white_pixel,
        event_mask: EVENT_MASK_ALL,
    }
}

/// One window on the screen: its identifier, the byte order of its session,
/// and the requests it has queued and not yet handed out.
pub struct Window {
    id: u32,
    order: Endian,
    pending: Vec<Request>,
}

/// A window as contracts see it.
pub struct WindowView {
    pub id: u32,
    pub order: Endian,
    pub pending: Seq<Request>,
}

impl View for Window {
    type V = WindowView;

    closed spec fn view(&self) -> WindowView {
        WindowView { id: self.id, order: self.order, pending: self.pending@ }
    }
}

impl Window {
    /// A window with identifier `id` on `screen`, in a session that uses byte
    /// order `order`. Its creation request is queued, and nothing else.
    pub fn new(id: u32, screen: Screen, order: Endian) -> (window: Window)
        ensures
            window@ == (WindowView {
                id,
                order,
                pending: seq![Request::CreateWindow(creation_request(id, screen))],
            }),
    {
        let request = CreateWindow {
            depth: COPY_FROM_PARENT,
            window: id,
            parent: screen.root,
            x: DEFAULT_X,
            y: DEFAULT_Y,
            width: DEFAULT_WIDTH,
            height: DEFAULT_HEIGHT,
            border_width: DEFAULT_BORDER_WIDTH,
            class: WINDOW_CLASS_INPUT_OUTPUT,
            visual: screen.root_visual,
            back_pixel: screen.white_pixel,
            event_mask: EVENT_MASK_ALL,
        };
        let mut pending: Vec<Request> = Vec::new();
        pending.push(Request::CreateWindow(request));
        proof {
            assert(pending@ =~= seq![Request::CreateWindow(creation_request(id, screen))]);
        }
        Window { id, order, pending }
    }

    /// The window's identifier.
    pub fn id(&self) -> (id: u32)
        ensures
            id == self@.id,
    {
        self.id
    }

    /// The byte order of the window's session.
    pub fn byte_order(&self) -> (order: Endian)
        ensures
            order == self@.order,
    {
        self.order
    }

    /// Queues the request that makes the window visible and hands out
    /// everything queued, oldest first, to be sent to the server at once.
    pub fn map_and_flush(&mut self) -> (batch: Vec<Request>)
        ensures
            batch@ == old(self)@.pending.push(Request::MapWindow(old(self)@.id)),
            final(self)@ == (WindowView { pending: Seq::empty(), ..old(self)@ }),
    {
        let mut batch: Vec<Request> = Vec::new();
        std::mem::swap(&mut batch, &mut self.pending);
        batch.push(Request::MapWindow(self.id));
        batch
    }

    /// A fresh decoder for the messages that the server sends to this window.
    pub fn events(&self) -> (events: EventIterator)
        ensures
            events.order() == self@.order,
            !events.ended(),
    {
        EventIterator { order: self.order, ended: false }
    }
}

/// The events of one session, decoded one message at a time. Once the
/// session has ended, nothing is decoded any more.
pub struct EventIterator {
    order: Endian,
    ended: bool,
}

impl EventIterator {
    /// The byte order in which messages are read.
    pub closed spec fn order(&self) -> Endian {
        self.order
    }

    /// Whether the end of the session has been seen.
    pub closed spec fn ended(&self) -> bool {
        self.ended
    }

    /// What [`EventIterator::next`] yields for `message` when the end of
    /// the session has already been seen (`ended`) or not.
    pub open spec fn item(ended: bool, order: Endian, message: Option<Seq<u8>>) -> Option<
        Result<Event, DecodeError>,
    > {
        if ended {
            None
        } else {
            match message {
                None => None,
                Some(bytes) => Some(decode_spec(bytes, order)),
            }
        }
    }

    /// Takes what the session delivered next, a message or its end (`None`),
    /// and yields the decoded event. After the end every call yields `None`,
    /// whatever it is given.
    pub fn next(&mut self, message: Option<&[u8]>) -> (item: Option<Result<Event, DecodeError>>)
        ensures
            final(self).order() == old(self).order(),
            final(self).ended() == (old(self).ended() || message is None),
            item == Self::item(
                old(self).ended(),
                old(self).order(),
                match message {
                    None => None,
                    Some(bytes) => Some(bytes@),
                },
            ),
    {
        if self.ended {
            return None;
        }
        match message {
            None => {
                self.ended = true;
                None
            },
            Some(bytes) => Some(decode(bytes, self.order)),
        }
    }
}

/// A message with a tag other than 2 to 12 decodes to the catch-all event,
/// whatever follows the tag and however short the message is.
pub proof fn lemma_unrecognized_tag_is_unimplemented(message: Seq<u8>, order: Endian)
    requires
        message.len() > 0,
        !(2 <= message[0] <= 12),
    ensures
        decode_spec(message, order) == Ok::<Event, DecodeError>(Event::UnimplementedEvent),
{
}

/// What a message decodes to depends on its tag alone, or on its tag, its
/// second byte and the four bytes of the window-relative position: two
/// complete messages that agree on those decode alike.
pub proof fn lemma_decode_reads_only_its_fields(first: Seq<u8>, second: Seq<u8>, order: Endian)
    requires
        first.len() > 0,
        second.len() > 0,
        first[0] == second[0],
        carries_payload(first[0]) ==> first.len() >= 32 && second.len() >= 32 && first[1]
            == second[1] && first.subrange(24, 28) == second.subrange(24, 28),
    ensures
        decode_spec(first, order) == decode_spec(second, order),
{
    if carries_payload(first[0]) {
        assert forall|i: int| 24 <= i < 28 implies first[i] == second[i] by {
            assert(first.subrange(24, 28)[i - 24] == second.subrange(24, 28)[i - 24]);
        }
    }
}

/// Once the end of the session has been seen, no message yields an event.
pub proof fn lemma_ended_yields_nothing(order: Endian, message: Option<Seq<u8>>)
    ensures
        EventIterator::item(true, order, message) is None,
{
}

} // verus!
