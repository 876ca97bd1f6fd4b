//! Menu buttons of the game Minion Jump.
//!
//! The callback of each button is captured when the game makes the button, and
//! is fired when that very button's release animation runs.

use vstd::prelude::*;
use vstd::string::*;

use crate::types::{id, SEL};

verus! {

/// The stages that are unlocked at the start, which are all there are.
pub const ALL_STAGES: u32 = 25;

/// The number that decimal digits stand for, if they are all digits.
pub open spec fn decimal(digits: Seq<u8>) -> Option<nat>
    decreases digits.len(),
{
    if digits.len() == 0 {
        Some(0)
    } else {
        match decimal(digits.drop_last()) {
            Some(high) if 48 <= digits.last() <= 57 => Some(
                (10 * high + (digits.last() - 48)) as nat,
            ),
            _ => None,
        }
    }
}

/// The digits of a number that may be written with a plus sign: 43 is `+`.
pub open spec fn digits_of(text: Seq<u8>) -> Seq<u8> {
    if text.len() > 0 && text[0] == 43 {
        text.drop_first()
    } else {
        text
    }
}

/// The index of the stage to be played, as it is written in a text: zero where
/// there is no text, or one that is no number or too large a number.
pub open spec fn index_in(text: Option<Seq<u8>>) -> u32 {
    match text {
        Some(text) => match decimal(digits_of(text)) {
            Some(value) if digits_of(text).len() > 0 && value <= u32::MAX => value as u32,
            _ => 0,
        },
        None => 0,
    }
}

/// Digits that are followed by others are digits themselves, and stand for no
/// larger a number.
proof fn lemma_decimal_grows(digits: Seq<u8>, n: int)
    requires
        0 <= n <= digits.len(),
        decimal(digits) is Some,
    ensures
        decimal(digits.take(n)) is Some,
        decimal(digits.take(n))->0 <= decimal(digits)->0,
    decreases digits.len(),
{
    if n == digits.len() {
        assert(digits.take(n) =~= digits);
    } else {
        lemma_decimal_grows(digits.drop_last(), n);
        assert(digits.drop_last().take(n) =~= digits.take(n));
    }
}

/// Reads the index of the stage to be played from a text.
pub fn stage_index(value: Option<&str>) -> (index: u32)
    ensures
        index == index_in(
            match value {
                Some(text) => Some(text.spec_bytes()),
                None => None,
            },
        ),
{
    let bytes: &[u8] = match value {
        Some(text) => text.as_bytes(),
        None => {
            return 0;
        },
    };
    let start: usize = if bytes.len() > 0 && bytes[0] == 43 {
        1
    } else {
        0
    };
    let ghost digits = digits_of(bytes@);
    assert(digits =~= bytes@.skip(start as int));
    if bytes.len() == start {
        return 0;
    }
    let mut i: usize = start;
    let mut index: u32 = 0;
    assert(digits.take(0) =~= Seq::empty());
    while i < bytes.len()
        invariant
            start <= i <= bytes@.len(),
            start < bytes@.len(),
            value matches Some(text) && bytes@ == text.spec_bytes(),
            digits == digits_of(bytes@),
            digits == bytes@.skip(start as int),
            decimal(digits.take(i - start)) == Some(index as nat),
        decreases bytes@.len() - i,
    {
        let byte: u8 = bytes[i];
        let ghost next = digits.take(i + 1 - start);
        assert(next.drop_last() =~= digits.take(i - start));
        assert(next.last() == byte);
        if byte < 48 || byte > 57 {
            proof {
                if decimal(digits) is Some {
                    lemma_decimal_grows(digits, i + 1 - start);
                }
            }
            return 0;
        }
        let digit: u32 = (byte - 48) as u32;
        if index > (u32::MAX - digit) / 10 {
            proof {
                if decimal(digits) is Some {
                    lemma_decimal_grows(digits, i + 1 - start);
                }
            }
            return 0;
        }
        index = 10 * index + digit;
        i += 1;
    }
    assert(digits.take(i - start) =~= digits);
    index
}

/// The callback of a button.
#[derive(Clone, Copy, PartialEq, Eq, Structural, Debug)]
pub struct Button {
    /// The address of the button object.
    pub button: u32,
    /// The address of the object that the callback is sent to.
    pub target: u32,
    /// The address of the callback's name.
    pub selector: u32,
    /// The stage that the button selects; 0 for a button of another kind.
    pub stage: u32,
}

/// What a call that makes a button says of the button's callback.
#[derive(Clone, Copy, PartialEq, Eq, Structural, Debug)]
pub struct Factory {
    pub target: u32,
    pub selector: u32,
    pub stage: u32,
    /// The button is the first of a new scene: the buttons of the old scene are
    /// gone.
    pub clears_scene: bool,
    /// The button is made only when a stage has been cleared.
    pub unlocks_next: bool,
}

/// A callback that waits until the touch that caused it has been handled.
pub struct PendingCallback {
    pub target: id,
    pub selector: SEL,
    pub sender: id,
    /// The name of the callback.
    pub callback: Vec<u8>,
    pub stage: u32,
}

/// The mathematical counterpart of `PendingCallback`.
pub struct PendingView {
    pub target: id,
    pub selector: SEL,
    pub sender: id,
    pub callback: Seq<u8>,
    pub stage: u32,
}

impl View for PendingCallback {
    type V = PendingView;

    open spec fn view(&self) -> PendingView {
        PendingView {
            target: self.target,
            selector: self.selector,
            sender: self.sender,
            callback: self.callback@,
            stage: self.stage,
        }
    }
}

/// Something about the game's buttons and stages that is worth logging.
#[derive(Clone, Copy)]
pub enum MinionNotice {
    /// A message that has to do with buttons was nested too deep.
    Dispatch { receiver: id, selector: SEL },
    /// A call makes an ordinary button.
    PlainFactory { target: u32, selector: SEL },
    /// A stage button is made unlocked that was to be locked.
    StageForced { stage: u32, unlocked_level: u32 },
    /// A call makes a stage button.
    StarFactory { stage: u32, stars: u32, locked: u32, tag: u32, target: u32, selector: SEL },
    /// The app asked for the stage to be played, and is told the index.
    StageAsked { selector: SEL, index: u32 },
    /// The button with this callback is the first of a new scene.
    SceneCleared { selector: SEL },
    /// A button was made that is made only when a stage has been cleared.
    NextUnlocked { stage: u32 },
    /// A button was made, and its callback is noted.
    ButtonMapped { button: u32, target: u32, selector: SEL, stage: u32 },
    /// A stage was selected.
    StageSelected { stage: u32, index: u32 },
    /// The callback that starts a stage is about to be sent. `released` is the
    /// release animation's argument, and `left` what the animation left in its
    /// place.
    StageStarted {
        button: u32,
        target: u32,
        selector: SEL,
        released: u32,
        left: u32,
        stage: u32,
        tag: u32,
    },
    /// A button was released that leads to the next stage.
    NextReleased { stage: u32 },
    /// A callback was put off until the touch has been handled.
    CallbackQueued { button: u32, target: u32, selector: SEL, sender: u32, stage: u32 },
    /// A button of the given class was released that has no callback.
    NoCallback { class: id, receiver: id, released: u32 },
}

/// What is kept of the game's menus and stages.
pub struct MinionJump {
    /// The callbacks of the buttons of the current scene.
    pub buttons: Vec<Button>,
    /// A callback is being handled.
    pub busy: bool,
    /// The highest stage that is unlocked.
    pub unlocked_level: u32,
    /// The stage that is being played, or 0.
    pub current_level: u32,
    /// The index of the stage that was selected last.
    pub selected_stage_index: u32,
    /// The stage that was selected last.
    pub selected_stage: Option<u32>,
    /// The callback that is to be sent once the current touch is handled.
    pub pending: Option<PendingCallback>,
}

/// The mathematical counterpart of `MinionJump`.
#[verifier::ext_equal]
pub struct MinionView {
    pub buttons: Seq<Button>,
    pub busy: bool,
    pub unlocked_level: u32,
    pub current_level: u32,
    pub selected_stage_index: u32,
    pub selected_stage: Option<u32>,
    pub pending: Option<PendingView>,
}

impl View for MinionJump {
    type V = MinionView;

    open spec fn view(&self) -> MinionView {
        MinionView {
            buttons: self.buttons@,
            busy: self.busy,
            unlocked_level: self.unlocked_level,
            current_level: self.current_level,
            selected_stage_index: self.selected_stage_index,
            selected_stage: self.selected_stage,
            pending: match self.pending {
                Some(pending) => Some(pending@),
                None => None,
            },
        }
    }
}

/// The state at the start of the game.
pub open spec fn at_start() -> MinionView {
    MinionView {
        buttons: Seq::empty(),
        busy: false,
        unlocked_level: ALL_STAGES,
        current_level: 0,
        selected_stage_index: 0,
        selected_stage: None,
        pending: None,
    }
}

/// The stage after the current one is unlocked, if a stage is being played.
pub open spec fn next_unlocked(game: MinionView) -> MinionView {
    if game.current_level != 0 && game.current_level.wrapping_add(1) > game.unlocked_level {
        MinionView { unlocked_level: game.current_level.wrapping_add(1), ..game }
    } else {
        game
    }
}

/// The callbacks of all the buttons but one.
pub open spec fn without_button(buttons: Seq<Button>, button: u32) -> Seq<Button> {
    buttons.filter(|b: Button| b.button != button)
}

/// The entry that is made for a button.
pub open spec fn entry(button: u32, factory: Factory) -> Button {
    Button { button, target: factory.target, selector: factory.selector, stage: factory.stage }
}

/// The state after a call made a button.
pub open spec fn with_button(game: MinionView, button: u32, factory: Factory) -> MinionView {
    let others = if factory.clears_scene {
        Seq::empty()
    } else {
        game.buttons
    };
    let game = if factory.unlocks_next {
        next_unlocked(game)
    } else {
        game
    };
    MinionView {
        buttons: without_button(others, button).push(entry(button, factory)),
        ..game
    }
}

/// The first callback that belongs to one of two objects.
pub open spec fn find_button(buttons: Seq<Button>, either: u32, or: u32) -> Option<Button>
    decreases buttons.len(),
{
    if buttons.len() == 0 {
        None
    } else if buttons[0].button == either || buttons[0].button == or {
        Some(buttons[0])
    } else {
        find_button(buttons.drop_first(), either, or)
    }
}

/// The state after a stage was selected.
pub open spec fn with_selected(game: MinionView, stage: u32) -> MinionView {
    MinionView {
        selected_stage_index: if stage == 0 {
            0
        } else {
            (stage - 1) as u32
        },
        selected_stage: Some(stage),
        ..game
    }
}

impl MinionJump {
    /// The state at the start of the game.
    pub fn new() -> (game: MinionJump)
        ensures
            game@ == at_start(),
    {
        MinionJump {
            buttons: Vec::new(),
            busy: false,
            unlocked_level: ALL_STAGES,
            current_level: 0,
            selected_stage_index: 0,
            selected_stage: None,
            pending: None,
        }
    }

    /// Unlocks the stage after the current one, if a stage is being played.
    pub fn unlock_next(&mut self)
        ensures
            final(self)@ == next_unlocked(old(self)@),
    {
        if self.current_level != 0 {
            let next: u32 = self.current_level.wrapping_add(1);
            if next > self.unlocked_level {
                self.unlocked_level = next;
            }
        }
    }

    /// Notes the callback of a button that was made.
    pub fn map_button(&mut self, button: u32, factory: Factory)
        ensures
            final(self)@ == with_button(old(self)@, button, factory),
    {
        if factory.clears_scene {
            self.buttons.clear();
        }
        let ghost others = self.buttons@;
        if factory.unlocks_next {
            self.unlock_next();
        }
        let ghost keep = |b: Button| b.button != button;
        let mut kept: Vec<Button> = Vec::new();
        let mut i: usize = 0;
        assert(others.take(0).filter(keep) =~= Seq::empty()) by {
            reveal(Seq::filter);
        }
        while i < self.buttons.len()
            invariant
                i <= self.buttons@.len(),
                others == self.buttons@,
                keep == (|b: Button| b.button != button),
                kept@ == others.take(i as int).filter(keep),
            decreases self.buttons@.len() - i,
        {
            let entry: Button = self.buttons[i];
            proof {
                reveal(Seq::filter);
                assert(others.take(i + 1).drop_last() =~= others.take(i as int));
                assert(others.take(i + 1).last() == entry);
            }
            if entry.button != button {
                kept.push(entry);
            }
            i += 1;
        }
        assert(others.take(others.len() as int) =~= others);
        kept.push(
            Button {
                button,
                target: factory.target,
                selector: factory.selector,
                stage: factory.stage,
            },
        );
        self.buttons = kept;
    }

    /// Finds the first callback that belongs to one of two objects.
    pub fn find_button(&self, either: u32, or: u32) -> (found: Option<Button>)
        ensures
            found == find_button(self@.buttons, either, or),
    {
        let mut i: usize = 0;
        assert(self.buttons@.skip(0) =~= self.buttons@);
        while i < self.buttons.len()
            invariant
                i <= self.buttons@.len(),
                find_button(self.buttons@.skip(i as int), either, or) == find_button(
                    self.buttons@,
                    either,
                    or,
                ),
            decreases self.buttons@.len() - i,
        {
            let entry: Button = self.buttons[i];
            if entry.button == either || entry.button == or {
                return Some(entry);
            }
            assert(self.buttons@.skip(i as int).drop_first() =~= self.buttons@.skip(i + 1));
            i += 1;
        }
        None
    }

    /// Notes the stage that was selected, and its index.
    pub fn select_stage(&mut self, stage: u32)
        ensures
            final(self)@ == with_selected(old(self)@, stage),
    {
        self.selected_stage_index = stage.saturating_sub(1);
        self.selected_stage = Some(stage);
    }
}

proof fn lemma_without_button(buttons: Seq<Button>, button: u32)
    ensures
        forall|i: int|
            0 <= i < without_button(buttons, button).len() ==> (#[trigger] without_button(
                buttons,
                button,
            )[i]).button != button && buttons.contains(without_button(buttons, button)[i]),
    decreases buttons.len(),
{
    reveal(Seq::filter);
    if buttons.len() > 0 {
        lemma_without_button(buttons.drop_last(), button);
        let rest = without_button(buttons.drop_last(), button);
        let all = without_button(buttons, button);
        assert forall|i: int| 0 <= i < all.len() implies (#[trigger] all[i]).button != button
            && buttons.contains(all[i]) by {
            if i < rest.len() {
                assert(all[i] == rest[i]);
                assert(buttons.drop_last().contains(rest[i]));
                let k = choose|k: int|
                    0 <= k < buttons.drop_last().len() && buttons.drop_last()[k] == rest[i];
                assert(buttons[k] == rest[i]);
            } else {
                assert(all[i] == buttons.last());
                assert(buttons[buttons.len() - 1] == all[i]);
            }
        }
    }
}

/// The entry behind all that belong to neither object is found last.
proof fn lemma_find_pushed(buttons: Seq<Button>, last: Button, either: u32, or: u32)
    ensures
        find_button(buttons.push(last), either, or) == (match find_button(buttons, either, or) {
            Some(found) => Some(found),
            None => if last.button == either || last.button == or {
                Some(last)
            } else {
                None
            },
        }),
    decreases buttons.len(),
{
    let all = buttons.push(last);
    if buttons.len() == 0 {
        assert(all[0] == last);
        assert(all.drop_first().len() == 0);
        assert(find_button(all.drop_first(), either, or) is None);
    } else {
        assert(all[0] == buttons[0]);
        assert(all.drop_first() =~= buttons.drop_first().push(last));
        lemma_find_pushed(buttons.drop_first(), last, either, or);
    }
}

proof fn lemma_find_none(buttons: Seq<Button>, either: u32, or: u32)
    requires
        forall|i: int|
            0 <= i < buttons.len() ==> (#[trigger] buttons[i]).button != either
                && buttons[i].button != or,
    ensures
        find_button(buttons, either, or) is None,
    decreases buttons.len(),
{
    if buttons.len() > 0 {
        assert forall|i: int| 0 <= i < buttons.drop_first().len() implies (
        #[trigger] buttons.drop_first()[i]).button != either && buttons.drop_first()[i].button
            != or by {
            assert(buttons.drop_first()[i] == buttons[i + 1]);
        }
        lemma_find_none(buttons.drop_first(), either, or);
    }
}

/// The buttons but one are searched for another just as all of them are.
proof fn lemma_find_without(buttons: Seq<Button>, button: u32, other: u32)
    requires
        other != button,
    ensures
        find_button(without_button(buttons, button), other, other) == find_button(
            buttons,
            other,
            other,
        ),
    decreases buttons.len(),
{
    reveal(Seq::filter);
    if buttons.len() > 0 {
        let front = buttons.drop_last();
        lemma_find_without(front, button, other);
        lemma_find_pushed(front, buttons.last(), other, other);
        assert(front.push(buttons.last()) =~= buttons);
        if buttons.last().button != button {
            lemma_find_pushed(without_button(front, button), buttons.last(), other, other);
        }
    }
}

/// A button's callback is the one that was given when the button was made,
/// whatever callback an earlier button at the same address had. `or` stands for
/// another object that may be meant, and has no callback of its own.
pub proof fn law_button_has_its_callback(game: MinionView, button: u32, factory: Factory, or: u32)
    requires
        or == button || factory.clears_scene || find_button(game.buttons, or, or) is None,
    ensures
        find_button(with_button(game, button, factory).buttons, button, or) == Some(
            entry(button, factory),
        ),
{
    let others = if factory.clears_scene {
        Seq::empty()
    } else {
        game.buttons
    };
    let rest = without_button(others, button);
    lemma_without_button(others, button);
    assert forall|i: int| 0 <= i < rest.len() implies (#[trigger] rest[i]).button != button
        && rest[i].button != or by {
        assert(others.contains(rest[i]));
        let k = choose|k: int| 0 <= k < others.len() && others[k] == rest[i];
        if others[k].button == or {
            lemma_find_some(others, k, or);
        }
    }
    lemma_find_none(rest, button, or);
    lemma_find_pushed(rest, entry(button, factory), button, or);
}

proof fn lemma_find_some(buttons: Seq<Button>, k: int, button: u32)
    requires
        0 <= k < buttons.len(),
        buttons[k].button == button,
    ensures
        find_button(buttons, button, button) is Some,
    decreases buttons.len(),
{
    if buttons[0].button != button {
        assert(buttons.drop_first()[k - 1] == buttons[k]);
        lemma_find_some(buttons.drop_first(), k - 1, button);
    }
}

/// Making a button does not change the callbacks of the scene's other buttons.
/// The first button of a new scene leaves the others without callbacks.
pub proof fn law_other_buttons_keep_their_callbacks(
    game: MinionView,
    button: u32,
    factory: Factory,
    other: u32,
)
    requires
        other != button,
    ensures
        find_button(with_button(game, button, factory).buttons, other, other) == (
        if factory.clears_scene {
            None
        } else {
            find_button(game.buttons, other, other)
        }),
{
    let others = if factory.clears_scene {
        Seq::empty()
    } else {
        game.buttons
    };
    lemma_find_without(others, button, other);
    lemma_find_pushed(without_button(others, button), entry(button, factory), other, other);
}

/// Whether at most one callback belongs to an object.
pub open spec fn at_most_once(buttons: Seq<Button>, button: u32) -> bool {
    forall|i: int, j: int|
        0 <= i < buttons.len() && 0 <= j < buttons.len() && (#[trigger] buttons[i]).button == button
            && (#[trigger] buttons[j]).button == button ==> i == j
}

/// A button has at most one callback.
pub proof fn law_one_callback_per_button(game: MinionView, button: u32, factory: Factory)
    ensures
        at_most_once(with_button(game, button, factory).buttons, button),
{
    let others = if factory.clears_scene {
        Seq::empty()
    } else {
        game.buttons
    };
    lemma_without_button(others, button);
}

/// A stage that is unlocked stays unlocked.
pub proof fn law_stages_stay_unlocked(game: MinionView, button: u32, factory: Factory)
    ensures
        next_unlocked(game).unlocked_level >= game.unlocked_level,
        with_button(game, button, factory).unlocked_level >= game.unlocked_level,
{
}

/// Whether all bytes are decimal digits.
pub open spec fn all_digits(text: Seq<u8>) -> bool {
    forall|i: int| 0 <= i < text.len() ==> 48 <= #[trigger] text[i] <= 57
}

/// The number that is written with the given digits.
pub open spec fn number(digits: Seq<u8>) -> int
    decreases digits.len(),
{
    if digits.len() == 0 {
        0
    } else {
        number(digits.drop_last()) * 10 + digits.last() - 48
    }
}

proof fn lemma_decimal(digits: Seq<u8>)
    ensures
        decimal(digits) is Some <==> all_digits(digits),
        decimal(digits) matches Some(value) ==> value == number(digits),
    decreases digits.len(),
{
    if digits.len() > 0 {
        let front = digits.drop_last();
        lemma_decimal(front);
        if all_digits(front) && 48 <= digits.last() <= 57 {
            assert forall|i: int| 0 <= i < digits.len() implies 48 <= #[trigger] digits[i]
                <= 57 by {
                if i < front.len() {
                    assert(front[i] == digits[i]);
                }
            }
        }
        if all_digits(digits) {
            assert forall|i: int| 0 <= i < front.len() implies 48 <= #[trigger] front[i] <= 57 by {
                assert(front[i] == digits[i]);
            }
        }
    }
}

/// The index of a stage is the number that is written, with or without a plus sign,
/// if it is at most the largest number of 32 bits.
pub proof fn law_indices_are_numbers(digits: Seq<u8>)
    requires
        digits.len() > 0,
        all_digits(digits),
    ensures
        index_in(Some(digits)) == (if number(digits) <= u32::MAX {
            number(digits)
        } else {
            0
        }),
        index_in(Some(seq![43u8] + digits)) == index_in(Some(digits)),
{
    lemma_decimal(digits);
    assert((seq![43u8] + digits).drop_first() =~= digits);
    assert(digits[0] != 43);
}

/// No other text is the index of a stage: it stands for the first stage, as no text
/// does.
pub proof fn law_other_texts_are_no_indices(text: Seq<u8>, i: int)
    requires
        text.len() == 0 || text == seq![43u8] || (0 <= i < text.len() && !(48 <= text[i] <= 57)
            && !(i == 0 && text[0] == 43)),
    ensures
        index_in(Some(text)) == 0,
        index_in(None) == 0,
{
    let digits = digits_of(text);
    lemma_decimal(digits);
    if text == seq![43u8] {
        assert(digits.len() == 0);
    } else if text.len() > 0 {
        if text[0] == 43 {
            assert(digits[i - 1] == text[i]);
        } else {
            assert(digits[i] == text[i]);
        }
    }
}

/// At the start all 25 stages are unlocked, none is selected or played, and no button
/// has a callback.
pub proof fn law_start()
    ensures
        at_start().buttons.len() == 0,
        !at_start().busy,
        at_start().unlocked_level == 25,
        at_start().current_level == 0,
        at_start().selected_stage_index == 0,
        at_start().selected_stage is None,
        at_start().pending is None,
{
}

/// Selecting a stage notes its number and its index, which is one less, and nothing
/// else.
pub proof fn law_selecting_notes_the_stage(game: MinionView, stage: u32)
    ensures
        with_selected(game, stage) == (MinionView {
            selected_stage: Some(stage),
            selected_stage_index: if stage > 0 {
                (stage - 1) as u32
            } else {
                0
            },
            ..game
        }),
{
}

/// Unlocking the next stage unlocks the one after the current one, and all below it,
/// if a stage is being played, and changes nothing else.
pub proof fn law_next_stage_is_unlocked(game: MinionView)
    ensures
        next_unlocked(game) == (MinionView {
            unlocked_level: next_unlocked(game).unlocked_level,
            ..game
        }),
        game.current_level == 0 ==> next_unlocked(game).unlocked_level == game.unlocked_level,
        0 < game.current_level < u32::MAX ==> next_unlocked(game).unlocked_level == (if
        game.current_level >= game.unlocked_level {
            game.current_level + 1
        } else {
            game.unlocked_level as int
        }),
        game.current_level == u32::MAX ==> next_unlocked(game).unlocked_level
            == game.unlocked_level,
{
}

/// Making a button notes its callback behind those of the other buttons, which keep
/// theirs and their order, unless the button is the first of a new scene.
pub proof fn law_making_a_button(game: MinionView, button: u32, factory: Factory)
    ensures
        ({
            let made = with_button(game, button, factory);
            let others = game.buttons.filter(|b: Button| b.button != button);
            &&& made.buttons == (if factory.clears_scene {
                Seq::empty()
            } else {
                others
            }).push(
                Button {
                    button,
                    target: factory.target,
                    selector: factory.selector,
                    stage: factory.stage,
                },
            )
            &&& made == (MinionView {
                buttons: made.buttons,
                unlocked_level: made.unlocked_level,
                ..game
            })
            &&& !factory.unlocks_next ==> made.unlocked_level == game.unlocked_level
            &&& factory.unlocks_next ==> made.unlocked_level == next_unlocked(game).unlocked_level
        }),
{
    reveal(Seq::filter);
    assert(Seq::<Button>::empty().filter(|b: Button| b.button != button) =~= Seq::empty());
}

} // verus!
