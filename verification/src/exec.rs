//! What a game needs from frame to frame.
use crate::input::{Input, Keys};
use crate::planckrand::{Rng, SEED_STEP};
use crate::video::mode::{Affine, Mixed, Text};
use crate::video::object::{Allocator, Slot};
use crate::video::memory::VideoMemory;
use crate::video::Control;
use vstd::prelude::*;

verus! {

/// The state of the console: the frame, the buttons, what is taken of the objects, and a
/// generator of random numbers.
pub struct ConsoleState {
    /// The number of the frame.
    pub frame: usize,
    /// The state of the buttons.
    pub input: Input,
    /// The slots of the objects, and the places of the loaded sprites.
    pub objects: Allocator,
    /// A generator of random numbers.
    pub rng: Rng,
}

/// The frame number `offset` frames after `frame`, counted around the end of `usize`.
pub open spec fn shifted(frame: usize, offset: isize) -> usize {
    let sum = frame + offset;
    if sum > usize::MAX {
        (sum - usize::MAX - 1) as usize
    } else if sum < 0 {
        (sum + usize::MAX + 1) as usize
    } else {
        sum as usize
    }
}

impl Default for ConsoleState {
    /// The state at power on: frame 0, no button down, nothing taken.
    fn default() -> (console: Self)
        ensures
            console.wf(),
            console.frame == 0,
            console.input.current.0 == 0xffff,
            console.input.previous.0 == 0xffff,
            console.objects.taken() == Set::<int>::empty(),
            console.objects.sprites() == Seq::<crate::block::Block>::empty(),
            console.rng.seed() == SEED_STEP,
    {
        ConsoleState {
            frame: 0,
            input: Input::default(),
            objects: Allocator::default(),
            rng: Rng::default(),
        }
    }
}

impl ConsoleState {
    /// The allocator of sprites is well formed.
    pub open spec fn wf(&self) -> bool {
        self.objects.wf()
    }

    /// Everything but the places of the loaded sprites is the same in `self` and `other`.
    pub open spec fn same_but_sprites(&self, other: &ConsoleState) -> bool {
        &&& self.frame == other.frame
        &&& self.input == other.input
        &&& self.objects.taken() == other.objects.taken()
        &&& self.rng == other.rng
    }

    /// Calls `f` if this frame is one of every `frequency` frames, counted from `offset`
    /// frames before frame 0.
    pub fn every<F: FnOnce(&ConsoleState)>(&self, offset: isize, frequency: usize, f: F)
        requires
            frequency > 0,
            shifted(self.frame, offset) % frequency == 0 ==> call_requires(f, (self,)),
        ensures
            shifted(self.frame, offset) % frequency == 0 ==> call_ensures(f, (self,), ()),
    {
        let offset = self.frame.wrapping_add_signed(offset);
        if offset % frequency == 0 {
            f(self);
        }
    }

    /// Takes the lowest free slot of an object. `None`, with nothing changed, if all are
    /// taken.
    pub fn reserve_object(&mut self) -> (slot: Option<Slot>)
        ensures
            final(self).frame == old(self).frame,
            final(self).input == old(self).input,
            final(self).rng == old(self).rng,
            final(self).objects.sprites() == old(self).objects.sprites(),
            final(self).wf() == old(self).wf(),
            match slot {
                Some(slot) => {
                    &&& slot.wf()
                    &&& !old(self).objects.taken().contains(slot.index())
                    &&& forall|lower: int|
                        0 <= lower < slot.index() ==> old(self).objects.taken().contains(lower)
                    &&& final(self).objects.taken() == old(self).objects.taken().insert(
                        slot.index(),
                    )
                },
                None => {
                    &&& forall|any: int| 0 <= any < 128 ==> old(self).objects.taken().contains(any)
                    &&& final(self).objects.taken() == old(self).objects.taken()
                },
            },
    {
        self.objects.reserve()
    }

    /// Gives the slot of an object back.
    pub fn free_object(&mut self, slot: Slot)
        requires
            slot.wf(),
        ensures
            final(self).frame == old(self).frame,
            final(self).input == old(self).input,
            final(self).rng == old(self).rng,
            final(self).objects.sprites() == old(self).objects.sprites(),
            final(self).wf() == old(self).wf(),
            final(self).objects.taken() == old(self).objects.taken().remove(slot.index()),
    {
        self.objects.free(slot);
    }

    /// Starts a frame: the buttons of the last frame become the previous ones, `keys` the
    /// current ones, and the frame number goes up by one, around the end of `usize`.
    pub fn begin_frame(&mut self, keys: Keys)
        ensures
            final(self).input.previous == old(self).input.current,
            final(self).input.current == keys,
            final(self).frame == shifted(old(self).frame, 1),
            final(self).objects == old(self).objects,
            final(self).rng == old(self).rng,
    {
        self.input.previous = self.input.current;
        self.input.current = keys;
        self.frame = self.frame.wrapping_add(1);
    }
}

/// The mode that a game asks for.
#[derive(Clone, Copy, Debug, PartialEq, Eq, Structural)]
pub enum EnterMode {
    Text,
    Mixed,
    Affine,
}

/// The display, in whichever mode it is.
pub enum ControlModes {
    Text(Control<Text>),
    Mixed(Control<Mixed>),
    Affine(Control<Affine>),
}

impl ControlModes {
    /// The display is well formed, and in the mode that the variant says.
    pub open spec fn wf(&self) -> bool {
        match self {
            ControlModes::Text(control) => control.wf(),
            ControlModes::Mixed(control) => control.wf(),
            ControlModes::Affine(control) => control.wf(),
        }
    }

    /// The registers and memories of the display.
    pub open spec fn memory(&self) -> crate::video::memory::VideoMemory {
        match self {
            ControlModes::Text(control) => control.memory,
            ControlModes::Mixed(control) => control.memory,
            ControlModes::Affine(control) => control.memory,
        }
    }

    /// The mode of the display.
    pub open spec fn mode(&self) -> EnterMode {
        match self {
            ControlModes::Text(_) => EnterMode::Text,
            ControlModes::Mixed(_) => EnterMode::Mixed,
            ControlModes::Affine(_) => EnterMode::Affine,
        }
    }
}

impl EnterMode {
    /// The code of the mode in the display control register.
    pub open spec fn code(self) -> u16 {
        match self {
            EnterMode::Text => 0,
            EnterMode::Mixed => 1,
            EnterMode::Affine => 2,
        }
    }

    /// Puts the display `mode` in the mode `self`: the mode is written to the display control
    /// register, also where the display is in that mode already.
    pub fn enter(self, mode: ControlModes) -> (entered: ControlModes)
        requires
            mode.wf(),
        ensures
            entered.wf(),
            entered.mode() == self,
            entered.memory().display_control == crate::bits::with_field_of(
                mode.memory().display_control,
                0,
                crate::video::MODE_MASK,
                self.code(),
            ),
            entered.memory().register_writes@ == mode.memory().register_writes@ + 1,
            entered.memory().layer_control@ == mode.memory().layer_control@,
            entered.memory().text_scroll@ == mode.memory().text_scroll@,
            entered.memory().affine_origin@ == mode.memory().affine_origin@,
            entered.memory().affine_matrix@ == mode.memory().affine_matrix@,
            entered.memory().objects@ == mode.memory().objects@,
            entered.memory().same_memories(&mode.memory()),
    {
        match mode {
            ControlModes::Text(control) => match self {
                EnterMode::Text => ControlModes::Text(control.enter_mode::<Text>()),
                EnterMode::Mixed => ControlModes::Mixed(control.enter_mode::<Mixed>()),
                EnterMode::Affine => ControlModes::Affine(control.enter_mode::<Affine>()),
            },
            ControlModes::Mixed(control) => match self {
                EnterMode::Text => ControlModes::Text(control.enter_mode::<Text>()),
                EnterMode::Mixed => ControlModes::Mixed(control.enter_mode::<Mixed>()),
                EnterMode::Affine => ControlModes::Affine(control.enter_mode::<Affine>()),
            },
            ControlModes::Affine(control) => match self {
                EnterMode::Text => ControlModes::Text(control.enter_mode::<Text>()),
                EnterMode::Mixed => ControlModes::Mixed(control.enter_mode::<Mixed>()),
                EnterMode::Affine => ControlModes::Affine(control.enter_mode::<Affine>()),
            },
        }
    }
}

/// A game: what it does with the buttons each frame, and what it draws in each mode.
///
/// The display starts in text mode. A game that wants another mode asks for it in `logic`.
///
/// For each draw function the game may say what it draws: a relation between the console
/// and the display before the call and after it. A game that says nothing allows anything.
pub trait GameState {
    /// Whether `text_draw` may turn `console` and `video` into `console_after` and
    /// `video_after`.
    open spec fn text_drawn(
        &self,
        console: ConsoleState,
        video: VideoMemory,
        console_after: ConsoleState,
        video_after: VideoMemory,
    ) -> bool {
        true
    }

    /// Whether `mixed_draw` may turn `console` and `video` into `console_after` and
    /// `video_after`.
    open spec fn mixed_drawn(
        &self,
        console: ConsoleState,
        video: VideoMemory,
        console_after: ConsoleState,
        video_after: VideoMemory,
    ) -> bool {
        true
    }

    /// Whether `affine_draw` may turn `console` and `video` into `console_after` and
    /// `video_after`.
    open spec fn affine_drawn(
        &self,
        console: ConsoleState,
        video: VideoMemory,
        console_after: ConsoleState,
        video_after: VideoMemory,
    ) -> bool {
        true
    }

    /// The logic of one frame. It may ask for a mode: the display then enters it before the
    /// frame is drawn.
    fn logic(&mut self, console: &mut ConsoleState) -> (request: Option<EnterMode>)
        requires
            old(console).wf(),
        ensures
            final(console).wf(),
    ;

    /// Draws a frame in text mode.
    fn text_draw(&self, console: &mut ConsoleState, video: &mut Control<Text>)
        requires
            old(console).wf(),
            old(video).wf(),
        ensures
            final(console).wf(),
            final(video).wf(),
            self.text_drawn(*old(console), old(video).memory, *final(console), final(video).memory),
    ;

    /// Draws a frame in mixed mode.
    fn mixed_draw(&self, console: &mut ConsoleState, video: &mut Control<Mixed>)
        requires
            old(console).wf(),
            old(video).wf(),
        ensures
            final(console).wf(),
            final(video).wf(),
            self.mixed_drawn(*old(console), old(video).memory, *final(console), final(video).memory),
    ;

    /// Draws a frame in affine mode.
    fn affine_draw(&self, console: &mut ConsoleState, video: &mut Control<Affine>)
        requires
            old(console).wf(),
            old(video).wf(),
        ensures
            final(console).wf(),
            final(video).wf(),
            self.affine_drawn(
                *old(console),
                old(video).memory,
                *final(console),
                final(video).memory,
            ),
    ;
}

/// `entered` is the display `before` as it is when the draw function is called: `before`
/// itself where no mode was asked for, and else `before` put in the mode that was asked for,
/// with the mode written to the display control register and nothing else changed.
pub open spec fn entered_from(
    entered: ControlModes,
    before: ControlModes,
    request: Option<EnterMode>,
) -> bool {
    match request {
        None => entered == before,
        Some(mode) => {
            &&& entered.wf()
            &&& entered.mode() == mode
            &&& entered.memory().display_control == crate::bits::with_field_of(
                before.memory().display_control,
                0,
                crate::video::MODE_MASK,
                mode.code(),
            )
            &&& entered.memory().register_writes@ == before.memory().register_writes@ + 1
            &&& entered.memory().layer_control@ == before.memory().layer_control@
            &&& entered.memory().text_scroll@ == before.memory().text_scroll@
            &&& entered.memory().affine_origin@ == before.memory().affine_origin@
            &&& entered.memory().affine_matrix@ == before.memory().affine_matrix@
            &&& entered.memory().objects@ == before.memory().objects@
            &&& entered.memory().same_memories(&before.memory())
        },
    }
}

/// Whether the draw function of `state` for the mode of `entered` may turn `console` and
/// `entered` into `console_after` and `shown`.
pub open spec fn frame_drawn<S: GameState>(
    state: &S,
    console: ConsoleState,
    entered: ControlModes,
    console_after: ConsoleState,
    shown: ControlModes,
) -> bool {
    &&& shown.mode() == entered.mode()
    &&& match entered {
        ControlModes::Text(_) => state.text_drawn(
            console,
            entered.memory(),
            console_after,
            shown.memory(),
        ),
        ControlModes::Mixed(_) => state.mixed_drawn(
            console,
            entered.memory(),
            console_after,
            shown.memory(),
        ),
        ControlModes::Affine(_) => state.affine_drawn(
            console,
            entered.memory(),
            console_after,
            shown.memory(),
        ),
    }
}

/// Draws one frame of `state`: enters the mode that was asked for, if any, and calls the draw
/// function of the mode that the display is in then, once.
pub fn draw_frame<S: GameState>(
    state: &S,
    console: &mut ConsoleState,
    video: ControlModes,
    request: Option<EnterMode>,
) -> (shown: ControlModes)
    requires
        old(console).wf(),
        video.wf(),
    ensures
        final(console).wf(),
        shown.wf(),
        shown.mode() == match request {
            Some(mode) => mode,
            None => video.mode(),
        },
        exists|entered: ControlModes| #[trigger]
            entered_from(entered, video, request) && frame_drawn(
                state,
                *old(console),
                entered,
                *final(console),
                shown,
            ),
{
    let mut display = match request {
        Some(mode) => mode.enter(video),
        None => video,
    };
    let ghost entered = display;
    match &mut display {
        ControlModes::Text(control) => state.text_draw(console, control),
        ControlModes::Mixed(control) => state.mixed_draw(console, control),
        ControlModes::Affine(control) => state.affine_draw(console, control),
    }
    proof {
        assert(entered_from(entered, video, request));
        assert(frame_drawn(state, *old(console), entered, *console, display));
    }
    display
}

} // verus!
