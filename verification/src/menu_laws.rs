//! What messages do in Minion Jump's menus, over the stack, the registers and the
//! names as they are.

use vstd::prelude::*;
use vstd::string::*;
use vstd::utf8::*;

use crate::classes::{
    acyclic, class_name, climbs, law_search_goes_up_the_chain, law_super_search_from_no_class,
    law_super_search_goes_up_the_chain, lookup_from, superclass_of, HostObject, Lookup, Objects,
};
use crate::dispatch_laws::{
    class_of, comes_first, in_game, law_messages_are_nested_only_so_deep, reported, runs, starts_at,
};
use crate::environment::{asked, well_formed, EnvView, Host, HostCall, Notice};
use crate::mem::{c_string, selector_name, with_word, word};
use crate::minion_jump::{find_button, Button, MinionNotice, MinionView, PendingView};
use crate::semantics::{
    arranged, asks_for_stage, delivers, dispatches, factory, finishes, handles, initializes, passed,
    registers, releases, selection_begun, selection_ended, selection_made, selects, sends,
    signature_checked, star_arranged, three_words, Message,
};
use crate::text::has_part;
use crate::types::{id, Class, TypeInfo, IMP, SEL};

verus! {

/// Different texts have different bytes.
proof fn lemma_texts_differ(a: &str, b: &str)
    requires
        a@ != b@,
    ensures
        a.spec_bytes() != b.spec_bytes(),
{
    encode_utf8_decode_utf8(a@);
    encode_utf8_decode_utf8(b@);
}

/// Whether a message has one of the names by which the app asks for the stage that is
/// to be played.
pub open spec fn asks_by_name(env: EnvView, selector: SEL) -> bool {
    let name = selector_name(env.mem, selector);
    name == "getCurrentStage".spec_bytes() || name == "currentstage".spec_bytes() || name
        == "currentStage".spec_bytes()
}

/// Names that mean something in the menus are not mixed up.
proof fn lemma_menu_names_differ()
    ensures
        forall|name: &str|
            #![trigger name.spec_bytes()]
            name@ == "getCurrentStage"@ || name@ == "currentstage"@ || name@ == "currentStage"@
                ==> name.spec_bytes()
                != "buttonWithSprite:selectImage:target:selector:".spec_bytes()
                && name.spec_bytes()
                != "buttonWithSpriteFrame:selectframeName:stageNumber:starCount:locked:tag:target:selector:".spec_bytes()
                && name.spec_bytes() != "animateFocusLoseMenuItem:".spec_bytes(),
        "buttonWithSprite:selectImage:target:selector:".spec_bytes()
            != "animateFocusLoseMenuItem:".spec_bytes(),
        "buttonWithSpriteFrame:selectframeName:stageNumber:starCount:locked:tag:target:selector:".spec_bytes()
            != "animateFocusLoseMenuItem:".spec_bytes(),
        "GrowButton"@ != "GrowStarButton"@,
        "playAction".spec_bytes() != "nextAction".spec_bytes(),
        "backAction".spec_bytes() != "nextAction".spec_bytes(),
        "selPause".spec_bytes() != "nextAction".spec_bytes(),
{
    reveal_strlit("getCurrentStage");
    reveal_strlit("currentstage");
    reveal_strlit("currentStage");
    reveal_strlit("buttonWithSprite:selectImage:target:selector:");
    reveal_strlit(
        "buttonWithSpriteFrame:selectframeName:stageNumber:starCount:locked:tag:target:selector:",
    );
    reveal_strlit("animateFocusLoseMenuItem:");
    reveal_strlit("GrowButton");
    reveal_strlit("GrowStarButton");
    reveal_strlit("playAction");
    reveal_strlit("backAction");
    reveal_strlit("selPause");
    reveal_strlit("nextAction");
    assert("playAction"@[0] == 'p' && "backAction"@[0] == 'b' && "nextAction"@[0] == 'n');
    assert("GrowButton"@.len() != "GrowStarButton"@.len());
    assert("selPause"@.len() != "nextAction"@.len());
    let plain = "buttonWithSprite:selectImage:target:selector:";
    assert(plain@.len() > 40);
    let star =
        "buttonWithSpriteFrame:selectframeName:stageNumber:starCount:locked:tag:target:selector:";
    let release = "animateFocusLoseMenuItem:";
    assert(star@.len() > 40 && release@.len() == 25);
    assert forall|name: &str|
        #![trigger name.spec_bytes()]
        name@ == "getCurrentStage"@ || name@ == "currentstage"@ || name@
            == "currentStage"@ implies name.spec_bytes() != plain.spec_bytes()
        && name.spec_bytes() != star.spec_bytes() && name.spec_bytes()
        != release.spec_bytes() by {
        assert(name@.len() <= 15);
        lemma_texts_differ(name, plain);
        lemma_texts_differ(name, star);
        lemma_texts_differ(name, release);
    }
    lemma_texts_differ(plain, release);
    lemma_texts_differ(star, release);
    lemma_texts_differ("playAction", "nextAction");
    lemma_texts_differ("backAction", "nextAction");
    lemma_texts_differ("selPause", "nextAction");
}

/// In Minion Jump, a message that asks for the stage by one of its names is answered
/// with the index of the stage that was selected, whatever its receiver is, and
/// nothing is run.
pub proof fn law_stage_is_told(
    host: Host,
    depth: nat,
    pre: EnvView,
    class: Class,
    message: Message,
    sent: Option<TypeInfo>,
    post: EnvView,
)
    requires
        in_game(pre),
        asks_by_name(pre, message.selector),
        delivers(host, depth, pre, class, message, sent, post),
    ensures
        post == (EnvView {
            regs: pre.regs.update(0, pre.game.selected_stage_index).update(1, 0),
            notices: pre.notices.push(
                Notice::MinionJump(
                    MinionNotice::StageAsked {
                        selector: message.selector,
                        index: pre.game.selected_stage_index,
                    },
                ),
            ),
            ..pre
        }),
{
    lemma_menu_names_differ();
    let name = selector_name(pre.mem, message.selector);
    if name == "getCurrentStage".spec_bytes() {
    } else if name == "currentstage".spec_bytes() {
    } else {
        assert(name == "currentStage".spec_bytes());
    }
}

/// The same of a message as it is sent, to an object whose class is initialized, or to
/// super.
pub proof fn law_stage_question_is_answered(
    host: Host,
    depth: nat,
    pre: EnvView,
    message: Message,
    post: EnvView,
    first: Class,
)
    requires
        well_formed(pre),
        depth < 128,
        in_game(pre),
        asks_by_name(pre, message.selector),
        message.receiver.bits != 0,
        class_of(pre, message).bits != 0,
        message.super2 is None ==> comes_first(
            pre.objects,
            message.receiver,
            class_of(pre, message),
            first,
        ) && (first.bits == 0 || pre.initialized.contains(first.bits)),
        dispatches(host, depth, pre, message, post),
    ensures
        post.regs == pre.regs.update(0, pre.game.selected_stage_index).update(1, 0),
        post.calls == pre.calls,
        post.mem == pre.mem,
        post.game == pre.game,
        post.initialized == pre.initialized,
{
    let taken = EnvView { type_info: None, ..pre };
    let class = class_of(pre, message);
    assert(handles(host, depth + 1, taken, message, pre.type_info, post));
    if message.super2 is None {
        let ready = choose|ready: EnvView|
            #[trigger] passed(ready) && initializes(
                host,
                depth + 1,
                taken,
                first,
                ready,
            ) && delivers(host, depth + 1, ready, class, message, pre.type_info, post);
        assert(ready == taken);
    }
    law_stage_is_told(host, depth + 1, taken, class, message, pre.type_info, post);
}

/// Whether the search for a message's method comes to a class that has `method`.
pub open spec fn leads_to(
    objects: Objects,
    class: Class,
    message: Message,
    chain: Seq<Class>,
    method: IMP,
) -> bool {
    let end = chain.last();
    &&& starts_at(objects, class, message.super2 is Some, chain[0])
    &&& climbs(objects, chain, message.selector)
    &&& end.bits != 0
    &&& objects.contains_key(end.bits)
    &&& objects[end.bits] matches HostObject::Class(owner)
        && owner.methods@.contains_key(message.selector.bits)
        && owner.methods@[message.selector.bits] == method
}

proof fn lemma_leads_to(
    objects: Objects,
    class: Class,
    message: Message,
    chain: Seq<Class>,
    method: IMP,
)
    requires
        acyclic(objects),
        leads_to(objects, class, message, chain, method),
    ensures
        lookup_from(objects, class, message.selector, message.super2 is Some) == (
        Lookup::Method { class: chain.last(), imp: method }),
{
    law_search_goes_up_the_chain(objects, chain, message.selector);
    if message.super2 is Some {
        if superclass_of(objects, class) is Some {
            let sender = objects[class.bits]->Class_0;
            law_super_search_goes_up_the_chain(
                objects,
                class,
                sender,
                chain,
                message.selector,
            );
        } else {
            law_super_search_from_no_class(objects, class, message.selector);
        }
    }
}

/// The notices `notices`, and behind them one about the game, if `told`.
pub open spec fn told_if(told: bool, notices: Seq<Notice>, notice: MinionNotice) -> Seq<Notice> {
    if told {
        notices.push(Notice::MinionJump(notice))
    } else {
        notices
    }
}

/// The callbacks of all buttons but the one at an address.
pub open spec fn all_but(buttons: Seq<Button>, button: u32) -> Seq<Button> {
    buttons.filter(|b: Button| b.button != button)
}

/// When an ordinary button is made, the target and the selector of its callback are
/// taken off the stack, and noted for the button that the method returns, in place of
/// any callback that was noted for that address. The first button of a new scene is
/// the only one that is noted then. A button that leads to the next stage unlocks it,
/// if a stage is being played. The method is run as always.
pub proof fn law_plain_buttons_are_noted(
    host: Host,
    depth: nat,
    pre: EnvView,
    class: Class,
    message: Message,
    sent: Option<TypeInfo>,
    post: EnvView,
    chain: Seq<Class>,
    method: IMP,
) -> (after: EnvView)
    requires
        acyclic(pre.objects),
        in_game(pre),
        class_name(pre.objects, class) == "GrowButton"@,
        selector_name(pre.mem, message.selector)
            == "buttonWithSprite:selectImage:target:selector:".spec_bytes(),
        leads_to(pre.objects, class, message, chain, method),
        delivers(host, depth, pre, class, message, sent, post),
    ensures
        ({
            let target = word(pre.mem, pre.regs[13]);
            let selector = word(pre.mem, pre.regs[13].wrapping_add(4));
            let callback = c_string(pre.mem, selector as int);
            let given = target != 0 && selector != 0;
            let clears = callback == "playAction".spec_bytes() || callback
                == "backAction".spec_bytes() || callback == "selPause".spec_bytes();
            let next = after.game.current_level.wrapping_add(1);
            let unlocks = callback == "nextAction".spec_bytes() && after.game.current_level != 0;
            let button = after.regs[0];
            &&& runs(
                host,
                depth,
                method,
                EnvView {
                    notices: reported(
                        told_if(
                            given,
                            pre.notices,
                            MinionNotice::PlainFactory { target, selector: SEL { bits: selector } },
                        ),
                        message,
                        sent,
                        method,
                    ),
                    ..pre
                },
                after,
            )
            &&& !given || button == 0 ==> post == after
            &&& given && button != 0 ==> post == (EnvView {
                game: MinionView {
                    buttons: (if clears {
                        Seq::empty()
                    } else {
                        all_but(after.game.buttons, button)
                    }).push(Button { button, target, selector, stage: 0 }),
                    unlocked_level: if unlocks && next > after.game.unlocked_level {
                        next
                    } else {
                        after.game.unlocked_level
                    },
                    ..after.game
                },
                notices: told_if(
                    unlocks,
                    told_if(
                        clears,
                        after.notices,
                        MinionNotice::SceneCleared { selector: SEL { bits: selector } },
                    ),
                    MinionNotice::NextUnlocked { stage: next },
                ).push(
                    Notice::MinionJump(
                        MinionNotice::ButtonMapped {
                            button,
                            target,
                            selector: SEL { bits: selector },
                            stage: 0,
                        },
                    ),
                ),
                ..after
            })
        }),
{
    lemma_menu_names_differ();
    lemma_not_a_question(pre, message);
    lemma_leads_to(pre.objects, class, message, chain, method);
    let env = arranged(pre, class, message.selector);
    let checked = signature_checked(env, message, sent, method);
    let after = lemma_method_is_run(host, depth, pre, class, message, sent, post, method);
    reveal(Seq::filter);
    assert(Seq::<Button>::empty().filter(|b: Button| b.button != after.regs[0]) =~= Seq::empty());
    let target = word(pre.mem, pre.regs[13]);
    let selector = word(pre.mem, pre.regs[13].wrapping_add(4));
    let notices = reported(
        told_if(
            target != 0 && selector != 0,
            pre.notices,
            MinionNotice::PlainFactory { target, selector: SEL { bits: selector } },
        ),
        message,
        sent,
        method,
    );
    assert(checked =~= (EnvView { notices, ..pre }));
    after
}

/// The names of messages that make or release buttons do not ask for the stage.
proof fn lemma_not_a_question(env: EnvView, message: Message)
    requires
        ({
            let name = selector_name(env.mem, message.selector);
            ||| name == "buttonWithSprite:selectImage:target:selector:".spec_bytes()
            ||| name
                == "buttonWithSpriteFrame:selectframeName:stageNumber:starCount:locked:tag:target:selector:".spec_bytes()
            ||| name == "animateFocusLoseMenuItem:".spec_bytes()
        }),
    ensures
        !asks_by_name(env, message.selector),
        !asks_for_stage(selector_name(env.mem, message.selector)),
{
    lemma_menu_names_differ();
    assert("getCurrentStage".spec_bytes() == "getCurrentStage".spec_bytes());
    assert("currentstage".spec_bytes() == "currentstage".spec_bytes());
    assert("currentStage".spec_bytes() == "currentStage".spec_bytes());
}

/// Where a method is found, it is run, and what follows it follows.
proof fn lemma_method_is_run(
    host: Host,
    depth: nat,
    pre: EnvView,
    class: Class,
    message: Message,
    sent: Option<TypeInfo>,
    post: EnvView,
    method: IMP,
) -> (after: EnvView)
    requires
        !asks_for_stage(selector_name(pre.mem, message.selector)),
        lookup_from(
            pre.objects,
            class,
            message.selector,
            message.super2 is Some,
        ) matches Lookup::Method { imp, .. } && imp == method,
        delivers(host, depth, pre, class, message, sent, post),
    ensures
        runs(
            host,
            depth,
            method,
            signature_checked(
                arranged(pre, class, message.selector),
                message,
                sent,
                method,
            ),
            after,
        ),
        finishes(host, depth, after, pre, class, message, post),
{
    let env = arranged(pre, class, message.selector);
    let checked = signature_checked(env, message, sent, method);
    assert(env.objects == pre.objects);
    let (after, answer) = choose|after: EnvView, answer: u32|
        #[trigger] asked(
            host,
            depth,
            HostCall::Invoke(method),
            checked,
            after,
            answer,
        ) && finishes(host, depth, after, pre, class, message, post);
    assert(runs(host, depth, method, checked, after));
    after
}

/// When a stage button is made, it is unlocked on the stack, if it is one of the first
/// 25 stages and locked. The target and the selector of its callback are taken off the
/// stack, and noted with the stage for the button that the method returns, if the
/// button is not locked and the callback is the one that selects a stage. The method
/// finds the unlocked button on the stack, and is run as always.
pub proof fn law_stage_buttons_are_noted(
    host: Host,
    depth: nat,
    pre: EnvView,
    class: Class,
    message: Message,
    sent: Option<TypeInfo>,
    post: EnvView,
    chain: Seq<Class>,
    method: IMP,
) -> (after: EnvView)
    requires
        acyclic(pre.objects),
        in_game(pre),
        class_name(pre.objects, class) == "GrowStarButton"@,
        selector_name(pre.mem, message.selector)
            == "buttonWithSpriteFrame:selectframeName:stageNumber:starCount:locked:tag:target:selector:".spec_bytes(),
        leads_to(pre.objects, class, message, chain, method),
        delivers(host, depth, pre, class, message, sent, post),
    ensures
        ({
            let sp = pre.regs[13];
            let stage = word(pre.mem, sp);
            let locked = word(pre.mem, sp.wrapping_add(8));
            let forced = stage <= 25 && locked != 0;
            let mem = if forced {
                with_word(pre.mem, sp.wrapping_add(8), 0)
            } else {
                pre.mem
            };
            let target = word(mem, sp.wrapping_add(16));
            let selector = word(mem, sp.wrapping_add(20));
            let given = target != 0 && selector != 0;
            let noted = given && (forced || locked == 0) && c_string(mem, selector as int)
                == "selectLVAction:".spec_bytes();
            let button = after.regs[0];
            let notices = told_if(
                given,
                told_if(
                    forced,
                    pre.notices,
                    MinionNotice::StageForced { stage, unlocked_level: pre.game.unlocked_level },
                ),
                MinionNotice::StarFactory {
                    stage,
                    stars: word(pre.mem, sp.wrapping_add(4)),
                    locked: if forced {
                        0
                    } else {
                        locked
                    },
                    tag: word(pre.mem, sp.wrapping_add(12)),
                    target,
                    selector: SEL { bits: selector },
                },
            );
            &&& runs(
                host,
                depth,
                method,
                EnvView { mem, notices: reported(notices, message, sent, method), ..pre },
                after,
            )
            &&& !noted || button == 0 ==> post == after
            &&& noted && button != 0 ==> post == (EnvView {
                game: MinionView {
                    buttons: all_but(after.game.buttons, button).push(
                        Button { button, target, selector, stage },
                    ),
                    ..after.game
                },
                notices: after.notices.push(
                    Notice::MinionJump(
                        MinionNotice::ButtonMapped {
                            button,
                            target,
                            selector: SEL { bits: selector },
                            stage,
                        },
                    ),
                ),
                ..after
            })
        }),
{
    lemma_menu_names_differ();
    lemma_not_a_question(pre, message);
    lemma_leads_to(pre.objects, class, message, chain, method);
    let env = arranged(pre, class, message.selector);
    assert(env == star_arranged(pre));
    lemma_method_is_run(host, depth, pre, class, message, sent, post, method)
}

/// Whether the entry `i` is the first whose button is one of two objects.
pub open spec fn first_of(buttons: Seq<Button>, either: u32, or: u32, i: int) -> bool {
    &&& 0 <= i < buttons.len()
    &&& buttons[i].button == either || buttons[i].button == or
    &&& forall|j: int|
        0 <= j < i ==> (#[trigger] buttons[j]).button != either && buttons[j].button != or
}

/// The first callback that belongs to one of two objects is found.
pub proof fn law_first_button_counts(buttons: Seq<Button>, either: u32, or: u32, i: int)
    ensures
        first_of(buttons, either, or, i) ==> find_button(buttons, either, or) == Some(buttons[i]),
        (forall|j: int|
            0 <= j < buttons.len() ==> (#[trigger] buttons[j]).button != either
                && buttons[j].button != or) ==> find_button(buttons, either, or) is None,
    decreases buttons.len(),
{
    if buttons.len() > 0 {
        let rest = buttons.drop_first();
        law_first_button_counts(rest, either, or, i - 1);
        if first_of(buttons, either, or, i) && i > 0 {
            assert(buttons[0].button != either && buttons[0].button != or);
            assert(first_of(rest, either, or, i - 1)) by {
                assert forall|j: int| 0 <= j < i - 1 implies (#[trigger] rest[j]).button != either
                    && rest[j].button != or by {
                    assert(rest[j] == buttons[j + 1]);
                }
                assert(rest[i - 1] == buttons[i]);
            }
        }
        if forall|j: int|
            0 <= j < buttons.len() ==> (#[trigger] buttons[j]).button != either
                && buttons[j].button != or {
            assert forall|j: int| 0 <= j < rest.len() implies (#[trigger] rest[j]).button != either
                && rest[j].button != or by {
                assert(rest[j] == buttons[j + 1]);
            }
            assert(buttons[0].button != either && buttons[0].button != or);
        }
    }
}

/// When the release animation of a button has run, the first callback that is noted
/// for the receiver or for the animation's argument is fired, unless one is being
/// fired: a callback that selects a stage at once, and any other by putting it off,
/// with the animation's argument as its sender. A callback that leads to the next
/// stage also unlocks it, if a stage is being played.
pub proof fn law_released_buttons_fire(
    host: Host,
    depth: nat,
    pre: EnvView,
    class: Class,
    message: Message,
    sent: Option<TypeInfo>,
    post: EnvView,
    chain: Seq<Class>,
    method: IMP,
) -> (after: EnvView)
    requires
        acyclic(pre.objects),
        in_game(pre),
        class_name(pre.objects, class) == "GrowButton"@ || class_name(pre.objects, class)
            == "GrowStarButton"@,
        selector_name(pre.mem, message.selector) == "animateFocusLoseMenuItem:".spec_bytes(),
        leads_to(pre.objects, class, message, chain, method),
        delivers(host, depth, pre, class, message, sent, post),
    ensures
        runs(
            host,
            depth,
            method,
            EnvView { notices: reported(pre.notices, message, sent, method), ..pre },
            after,
        ),
        (forall|j: int|
            0 <= j < after.game.buttons.len() ==> (#[trigger] after.game.buttons[j]).button
                != message.receiver.bits && after.game.buttons[j].button != pre.regs[2]) ==> post
            == (EnvView {
            notices: after.notices.push(
                Notice::MinionJump(
                    MinionNotice::NoCallback {
                        class,
                        receiver: message.receiver,
                        released: pre.regs[2],
                    },
                ),
            ),
            ..after
        }),
        forall|i: int| #[trigger]
            first_of(after.game.buttons, message.receiver.bits, pre.regs[2], i) ==> fires(
                host,
                depth,
                after,
                after.game.buttons[i],
                pre.regs[2],
                post,
            ),
{
    lemma_menu_names_differ();
    lemma_not_a_question(pre, message);
    lemma_leads_to(pre.objects, class, message, chain, method);
    let env = arranged(pre, class, message.selector);
    assert(env == pre);
    let after = lemma_method_is_run(host, depth, pre, class, message, sent, post, method);
    let checked = signature_checked(env, message, sent, method);
    let notices = reported(pre.notices, message, sent, method);
    assert(checked =~= (EnvView { notices, ..pre }));
    let buttons = after.game.buttons;
    assert(factory(pre, class, message.selector) is None);
    assert(releases(host, depth, after, class, message.receiver, pre.regs[2], post));
    law_first_button_counts(buttons, message.receiver.bits, pre.regs[2], 0);
    assert forall|i: int| #[trigger]
        first_of(buttons, message.receiver.bits, pre.regs[2], i) implies fires(
        host,
        depth,
        after,
        buttons[i],
        pre.regs[2],
        post,
    ) by {
        law_first_button_counts(buttons, message.receiver.bits, pre.regs[2], i);
    }
    after
}

/// Whether the callback of `button` is fired in the state `pre`, as far as it is to be.
pub open spec fn fires(
    host: Host,
    depth: nat,
    pre: EnvView,
    button: Button,
    released: u32,
    post: EnvView,
) -> bool {
    let callback = c_string(pre.mem, button.selector as int);
    let next = pre.game.current_level.wrapping_add(1);
    let unlocks = callback == "nextAction".spec_bytes() && pre.game.current_level != 0;
    if button.target == 0 || button.selector == 0 || pre.game.busy {
        post == pre
    } else if button.stage != 0 && callback == "selectLVAction:".spec_bytes() {
        selects(host, depth, pre, button, released, post)
    } else {
        post == (EnvView {
            game: MinionView {
                unlocked_level: if unlocks && next > pre.game.unlocked_level {
                    next
                } else {
                    pre.game.unlocked_level
                },
                pending: Some(
                    PendingView {
                        target: id { bits: button.target },
                        selector: SEL { bits: button.selector },
                        sender: id { bits: released },
                        callback,
                        stage: button.stage,
                    },
                ),
                ..pre.game
            },
            notices: told_if(
                unlocks,
                pre.notices,
                MinionNotice::NextReleased { stage: next },
            ).push(
                Notice::MinionJump(
                    MinionNotice::CallbackQueued {
                        button: button.button,
                        target: button.target,
                        selector: SEL { bits: button.selector },
                        sender: released,
                        stage: button.stage,
                    },
                ),
            ),
            ..pre
        })
    }
}

/// A stage is selected in these steps: callbacks are held off, and the stage is the
/// current one; the object that was released, and the button if it is another, are sent
/// `setTag:` with the stage's index, which is one less than its number; the stage and its
/// index are noted as selected; the callback is sent to its target with the button as its
/// argument; and registers 0 to 3 are restored, and callbacks held off no more.
#[verifier::spinoff_prover]
#[verifier::rlimit(50)]
pub proof fn law_stages_are_selected(
    host: Host,
    depth: nat,
    pre: EnvView,
    button: Button,
    released: u32,
    post: EnvView,
) -> (r: Selection)
    requires
        button.stage != 0,
        selects(host, depth, pre, button, released, post),
    ensures
        r.begun == (EnvView {
            game: MinionView { busy: true, current_level: button.stage, ..pre.game },
            ..pre
        }),
        registers(host, depth, r.begun, "setTag:", r.ready, r.set_tag),
        sends(host, depth, r.ready, r.tag_released, r.first),
        r.tag_released == seq![released, r.set_tag, (button.stage - 1) as u32],
        button.button == released ==> r.second == r.first,
        button.button != released ==> sends(host, depth, r.first, r.tag_button, r.second),
        r.tag_button == seq![button.button, r.set_tag, (button.stage - 1) as u32],
        r.selected == (EnvView {
            game: MinionView {
                selected_stage_index: (button.stage - 1) as u32,
                selected_stage: Some(button.stage),
                ..r.second.game
            },
            notices: r.second.notices.push(
                Notice::MinionJump(
                    MinionNotice::StageSelected {
                        stage: button.stage,
                        index: (button.stage - 1) as u32,
                    },
                ),
            ).push(
                Notice::MinionJump(
                    MinionNotice::StageStarted {
                        button: button.button,
                        target: button.target,
                        selector: SEL { bits: button.selector },
                        released,
                        left: pre.regs[2],
                        stage: button.stage,
                        tag: (button.stage - 1) as u32,
                    },
                ),
            ),
            ..r.second
        }),
        sends(host, depth, r.selected, r.callback, r.done),
        r.callback == seq![button.target, button.selector, button.button],
        post == (EnvView {
            regs: r.done.regs.update(0, pre.regs[0]).update(1, pre.regs[1]).update(
                2,
                pre.regs[2],
            ).update(3, pre.regs[3]),
            game: MinionView { busy: false, ..r.done.game },
            ..r.done
        }),
{
    let (ready, set_tag, first, second, done) = lemma_selection_steps(
        host,
        depth,
        pre,
        button,
        released,
        post,
    );
    lemma_selection_states(pre, button, released, second, done);
    let index = (button.stage - 1) as u32;
    let begun = selection_begun(pre, button.stage);
    Selection {
        begun,
        ready,
        set_tag,
        tag_released: three_words(released, set_tag, index),
        first,
        tag_button: three_words(button.button, set_tag, index),
        second,
        selected: selection_made(second, begun, button, released),
        callback: three_words(button.target, button.selector, button.button),
        done,
    }
}

/// The states that the selection of a stage passes through, and the messages that are
/// sent in them.
pub struct Selection {
    /// The selection has begun.
    pub begun: EnvView,
    /// The selector `setTag:` is registered.
    pub ready: EnvView,
    pub set_tag: u32,
    pub tag_released: Seq<u32>,
    /// The object that was released has its tag.
    pub first: EnvView,
    pub tag_button: Seq<u32>,
    /// The button has its tag too.
    pub second: EnvView,
    /// The stage is noted as selected.
    pub selected: EnvView,
    pub callback: Seq<u32>,
    /// The callback was sent.
    pub done: EnvView,
}

/// The steps that the selection of a stage is made of.
proof fn lemma_selection_steps(
    host: Host,
    depth: nat,
    pre: EnvView,
    button: Button,
    released: u32,
    post: EnvView,
) -> (r: (EnvView, u32, EnvView, EnvView, EnvView))
    requires
        selects(host, depth, pre, button, released, post),
    ensures
        ({
            let (ready, set_tag, first, second, done) = r;
            let begun = selection_begun(pre, button.stage);
            let tag = (button.stage - 1) as u32;
            &&& registers(host, depth, begun, "setTag:", ready, set_tag)
            &&& sends(host, depth, ready, three_words(released, set_tag, tag), first)
            &&& if button.button == released {
                second == first
            } else {
                sends(host, depth, first, three_words(button.button, set_tag, tag), second)
            }
            &&& sends(
                host,
                depth,
                selection_made(second, begun, button, released),
                three_words(button.target, button.selector, button.button),
                done,
            )
            &&& post == selection_ended(done, begun)
        }),
{
    let begun = selection_begun(pre, button.stage);
    let tag = (button.stage - 1) as u32;
    choose|ready: EnvView, set_tag: u32, first: EnvView, second: EnvView, done: EnvView|
        {
            &&& #[trigger] registers(host, depth, begun, "setTag:", ready, set_tag)
            &&& #[trigger] passed(first)
            &&& #[trigger] passed(second)
            &&& #[trigger] passed(done)
            &&& sends(
                host,
                depth,
                ready,
                three_words(released, set_tag, tag),
                first,
            )
            &&& if button.button == released {
                second == first
            } else {
                sends(
                    host,
                    depth,
                    first,
                    three_words(button.button, set_tag, tag),
                    second,
                )
            }
            &&& sends(
                host,
                depth,
                selection_made(second, begun, button, released),
                three_words(button.target, button.selector, button.button),
                done,
            )
            &&& post == selection_ended(done, begun)
        }
}

/// The states that the selection of a stage passes through.
proof fn lemma_selection_states(
    pre: EnvView,
    button: Button,
    released: u32,
    second: EnvView,
    done: EnvView,
)
    requires
        button.stage != 0,
    ensures
        ({
            let index = (button.stage - 1) as u32;
            let begun = selection_begun(pre, button.stage);
            &&& begun == (EnvView {
                game: MinionView { busy: true, current_level: button.stage, ..pre.game },
                ..pre
            })
            &&& selection_made(second, begun, button, released) == (EnvView {
                game: MinionView {
                    selected_stage_index: index,
                    selected_stage: Some(button.stage),
                    ..second.game
                },
                notices: second.notices.push(
                    Notice::MinionJump(MinionNotice::StageSelected { stage: button.stage, index }),
                ).push(
                    Notice::MinionJump(
                        MinionNotice::StageStarted {
                            button: button.button,
                            target: button.target,
                            selector: SEL { bits: button.selector },
                            released,
                            left: pre.regs[2],
                            stage: button.stage,
                            tag: index,
                        },
                    ),
                ),
                ..second
            })
            &&& selection_ended(done, begun) == (EnvView {
                regs: done.regs.update(0, pre.regs[0]).update(1, pre.regs[1]).update(
                    2,
                    pre.regs[2],
                ).update(3, pre.regs[3]),
                game: MinionView { busy: false, ..done.game },
                ..done
            })
        }),
{
}

/// A message that is nested too deep is logged in Minion Jump, before it is reported, if
/// it has to do with buttons or levels by its name.
pub proof fn law_menu_messages_are_logged_at_the_limit(
    host: Host,
    depth: nat,
    pre: EnvView,
    message: Message,
    post: EnvView,
)
    requires
        depth >= 128,
        in_game(pre),
        dispatches(host, depth, pre, message, post),
    ensures
        ({
            let name = selector_name(pre.mem, message.selector);
            let logged = {
                ||| name == "activate".spec_bytes()
                ||| name == "selected".spec_bytes()
                ||| name == "unselected".spec_bytes()
                ||| name == "animateFocusMenuItem:".spec_bytes()
                ||| name == "animateFocusLoseMenuItem:".spec_bytes()
                ||| has_part(name, "Button".spec_bytes())
                ||| has_part(name, "button".spec_bytes())
                ||| has_part(name, "play".spec_bytes())
                ||| has_part(name, "Play".spec_bytes())
                ||| has_part(name, "level".spec_bytes())
                ||| has_part(name, "Level".spec_bytes())
            };
            post.notices == told_if(
                logged,
                pre.notices,
                MinionNotice::Dispatch {
                    receiver: message.receiver,
                    selector: message.selector,
                },
            ).push(
                Notice::RecursionLimit { receiver: message.receiver, selector: message.selector },
            )
        }),
{
    let notices = law_messages_are_nested_only_so_deep(
        host,
        depth,
        pre,
        message,
        post,
    );
}

} // verus!
