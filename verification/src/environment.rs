//! The state that messages are sent in, and the calls that leave it.

use std::collections::HashSet;
use vstd::prelude::*;

use crate::classes::{acyclic, HostObjects, Objects};
use crate::mem::{blank, Mem};
use crate::minion_jump::{at_start, MinionJump, MinionNotice, MinionView};
use crate::names::{find, NameTable};
use crate::runner::Runner;
use crate::text::same_text;
use crate::types::{id, Class, TypeInfo, IMP, SEL};

verus! {

broadcast use vstd::std_specs::hash::group_hash_axioms;

/// The number of dispatches that may be nested in each other. A dispatch that
/// would be nested deeper is not made.
pub const MAX_DEPTH: usize = 128;

/// The number of times that a receiver without a class is reported.
pub const NIL_ISA_LOG_LIMIT: usize = 8;

/// The register that holds the stack pointer.
pub const SP: usize = 13;

/// The register that holds the return address.
pub const LR: usize = 14;

/// The guest CPU's registers.
pub struct Cpu {
    pub regs: [u32; 16],
}

/// The Objective-C runtime's tables.
pub struct ObjC {
    /// The host objects of all objects, classes among them.
    pub objects: HostObjects,
    /// The addresses of the classes that have been sent `+initialize`, or are
    /// being sent it, or do not need it.
    pub initialized_classes: HashSet<u32>,
    /// The registered selectors.
    pub selectors: NameTable,
    /// The classes that the host can find by name.
    pub known_classes: NameTable,
    /// The signature of the message that is about to be sent, if it is to be
    /// checked.
    pub message_type_info: Option<TypeInfo>,
}

impl ObjC {
    /// The selector that was registered under a name.
    pub fn lookup_selector(&self, name: &str) -> (selector: Option<SEL>)
        ensures
            selector == selector_named(self.selectors@, name@),
    {
        match self.selectors.find(name) {
            Some(bits) => Some(SEL { bits }),
            None => None,
        }
    }

    /// The class that is known under a name.
    pub fn lookup_class(&self, name: &str) -> (class: Option<Class>)
        ensures
            class == class_named(self.known_classes@, name@),
    {
        match self.known_classes.find(name) {
            Some(bits) => Some(id { bits }),
            None => None,
        }
    }
}

/// The selector that was registered under a name.
pub open spec fn selector_named(selectors: Seq<(Seq<char>, u32)>, name: Seq<char>) -> Option<SEL> {
    match find(selectors, name) {
        Some(bits) => Some(SEL { bits }),
        None => None,
    }
}

/// The class that is known under a name.
pub open spec fn class_named(classes: Seq<(Seq<char>, u32)>, name: Seq<char>) -> Option<Class> {
    match find(classes, name) {
        Some(bits) => Some(id { bits }),
        None => None,
    }
}

/// Something about a message that is worth reporting.
#[derive(Clone, Copy)]
pub enum Notice {
    /// Dispatches are nested too deep; the message was not dispatched.
    RecursionLimit { receiver: id, selector: SEL },
    /// The receiver has no class. It was probably freed. `count` such messages
    /// have been seen.
    NilIsa { receiver: id, selector: SEL, count: usize },
    /// Receivers without a class will not be reported any more.
    NilIsaSuppressed,
    /// The receiver does not respond to the selector.
    DoesNotRespond { receiver: id, selector: SEL, class: Class, to_super: bool },
    /// The receiver's class, or a superclass of it, is not implemented.
    UnimplementedClass { class: Class, selector: SEL },
    /// The receiver's class, or a superclass of it, is faked.
    FakedClass { class: Class, selector: SEL },
    /// Something in the receiver's chain of classes is no class.
    UnexpectedHostObject { class: Class, receiver: id, receiver_class: Class },
    /// The message's signature is not that of the method it was sent to.
    TypeMismatch {
        receiver: id,
        selector: SEL,
        sent: TypeInfo,
        expected: TypeInfo,
        tolerated: bool,
    },
    /// A struct was to be returned from a message to super.
    StructFromSuper { selector: SEL },
    /// Something happened in Minion Jump's menus.
    MinionJump(MinionNotice),
}

/// How deep dispatches are nested in each other.
pub struct DispatchDepth {
    value: usize,
}

impl DispatchDepth {
    #[verifier::type_invariant]
    spec fn within_limit(self) -> bool {
        self.value <= MAX_DEPTH
    }

    pub closed spec fn get(self) -> nat {
        self.value as nat
    }
}

/// The whole state of the emulator that sending messages depends on.
pub struct Environment {
    pub cpu: Cpu,
    pub mem: Mem,
    pub objc: ObjC,
    /// The identifier of the app that is running.
    pub bundle_identifier: Option<String>,
    pub minion_jump: MinionJump,
    /// What has been noticed, in order.
    pub notices: Vec<Notice>,
    /// The number of messages that were sent to receivers without a class.
    pub nil_isa_count: usize,
    /// How deep dispatches are nested in each other.
    pub depth: DispatchDepth,
}

/// The mathematical counterpart of `Environment`, but for the depth, with the
/// calls that left it.
#[verifier::ext_equal]
pub struct EnvView {
    pub regs: Seq<u32>,
    pub mem: Map<u32, u8>,
    pub objects: Objects,
    pub initialized: Set<u32>,
    pub selectors: Seq<(Seq<char>, u32)>,
    pub known_classes: Seq<(Seq<char>, u32)>,
    pub type_info: Option<TypeInfo>,
    pub bundle_identifier: Option<Seq<char>>,
    pub game: MinionView,
    pub notices: Seq<Notice>,
    pub nil_isa_count: usize,
    /// The calls that were made of the rest of the emulator. They are kept by the
    /// runner that they were made with, not by the environment itself.
    pub calls: Seq<HostCall>,
}

impl View for Environment {
    type V = EnvView;

    open spec fn view(&self) -> EnvView {
        EnvView {
            regs: self.cpu.regs@,
            mem: self.mem@,
            objects: self.objc.objects@,
            initialized: self.objc.initialized_classes@,
            selectors: self.objc.selectors@,
            known_classes: self.objc.known_classes@,
            type_info: self.objc.message_type_info,
            bundle_identifier: match self.bundle_identifier {
                Some(identifier) => Some(identifier@),
                None => None,
            },
            game: self.minion_jump@,
            notices: self.notices@,
            nil_isa_count: self.nil_isa_count,
            calls: Seq::empty(),
        }
    }
}

/// A call that leaves the message dispatcher. Only the rest of the emulator can
/// do what it asks for. All calls but those that run a method are given memory and
/// the tables of objects, selectors and classes only, in an environment that is
/// new otherwise, and only these are taken back from them.
#[derive(Clone, Copy)]
pub enum HostCall {
    /// Run a method implementation. Its arguments are in the registers and on
    /// the stack; so is its result when it returns.
    Invoke(IMP),
    /// Allocate an object of the given class, and answer its address.
    AllocObject(Class),
    /// Register a selector that is not registered yet, and answer its address.
    RegisterSelector(&'static str),
    /// Make the class with the given name known, and answer its address.
    LinkClass(&'static str),
}

/// What holds of the state of every environment: there are 16 registers, and no
/// class is its own superclass.
pub open spec fn well_formed(env: EnvView) -> bool {
    env.regs.len() == 16 && acyclic(env.objects)
}

/// The state in which nothing has happened yet.
pub open spec fn fresh() -> EnvView {
    EnvView {
        regs: Seq::new(16, |i: int| 0u32),
        mem: blank(),
        objects: Objects::empty(),
        initialized: Set::empty(),
        selectors: Seq::empty(),
        known_classes: Seq::empty(),
        type_info: None,
        bundle_identifier: None,
        game: at_start(),
        notices: Seq::empty(),
        nil_isa_count: 0,
        calls: Seq::empty(),
    }
}

/// Memory and the tables of objects, selectors and classes, in a state that is
/// fresh otherwise.
pub open spec fn tables_of(env: EnvView) -> EnvView {
    EnvView {
        mem: env.mem,
        objects: env.objects,
        selectors: env.selectors,
        known_classes: env.known_classes,
        ..fresh()
    }
}

/// The state with memory and the tables as they are in `tables`.
pub open spec fn with_tables_of(env: EnvView, tables: EnvView) -> EnvView {
    EnvView {
        mem: tables.mem,
        objects: tables.objects,
        selectors: tables.selectors,
        known_classes: tables.known_classes,
        ..env
    }
}

/// What the rest of the emulator may do: whether, at a depth and asked for a call
/// in a state, it may leave another state and an answer.
pub type Host = spec_fn(nat, HostCall, EnvView, EnvView, u32) -> bool;

/// What `run` may do.
pub open spec fn does<F: Fn(HostCall, Environment) -> (Environment, u32)>(run: F) -> Host {
    |depth: nat, call: HostCall, pre: EnvView, post: EnvView, answer: u32|
        exists|before: Environment, after: (Environment, u32)|
            before@ == pre && before.depth() == depth && after.0@ == post && after.1 == answer
                && #[trigger] call_ensures(run, (call, before), after)
}

/// The state as the rest of the emulator sees it, which does not see the calls that
/// were made of it.
pub open spec fn unlogged(env: EnvView) -> EnvView {
    EnvView { calls: Seq::empty(), ..env }
}

/// What is handed out for a call in the state `env`: the whole state, if a method
/// is to be run, and else memory and the tables only.
pub open spec fn handed_out(call: HostCall, env: EnvView) -> EnvView {
    if call is Invoke {
        unlogged(env)
    } else {
        tables_of(env)
    }
}

/// The state `env` after a call that left the state `after`: the call is logged,
/// and what was handed out is taken back.
pub open spec fn taken_back(call: HostCall, env: EnvView, after: EnvView) -> EnvView {
    let calls = env.calls.push(call);
    if call is Invoke {
        EnvView { calls, ..after }
    } else {
        EnvView { calls, ..with_tables_of(env, after) }
    }
}

/// Whether `host`, asked for `call` once in the state `pre`, may leave the state
/// `post` and the answer `answer`. A method is run in the whole state. For all
/// other calls only memory and the tables are handed out; the rest of the state
/// stays as it is.
pub open spec fn asked(
    host: Host,
    depth: nat,
    call: HostCall,
    pre: EnvView,
    post: EnvView,
    answer: u32,
) -> bool {
    exists|after: EnvView|
        well_formed(after) && #[trigger] host(depth, call, handed_out(call, pre), after, answer)
            && post == taken_back(call, pre, after)
}

/// Whether `run` can be asked for every call in every state.
pub open spec fn can_run<F: Fn(HostCall, Environment) -> (Environment, u32)>(run: F) -> bool {
    forall|call: HostCall, env: Environment| #[trigger] call_requires(run, (call, env))
}

/// Whether the app is one with the given identifier.
pub open spec fn is_app(env: EnvView, identifier: Seq<char>) -> bool {
    env.bundle_identifier == Some(identifier)
}

/// The state after registers 0 and 1 were set.
pub open spec fn returning(env: EnvView, low: u32, high: u32) -> EnvView {
    EnvView { regs: env.regs.update(0, low).update(1, high), ..env }
}

/// The state after registers 0 to 3 were set to what they are in `saved`.
pub open spec fn with_args_of(env: EnvView, saved: EnvView) -> EnvView {
    EnvView {
        regs: env.regs.update(0, saved.regs[0]).update(1, saved.regs[1]).update(
            2,
            saved.regs[2],
        ).update(3, saved.regs[3]),
        ..env
    }
}

/// The state after something was noticed.
pub open spec fn noticing(env: EnvView, notice: Notice) -> EnvView {
    EnvView { notices: env.notices.push(notice), ..env }
}

/// The state after something was noticed about Minion Jump.
pub open spec fn minion_noticing(env: EnvView, notice: MinionNotice) -> EnvView {
    noticing(env, Notice::MinionJump(notice))
}

/// The state after a class was marked as initialized.
pub open spec fn marking(env: EnvView, class: Class) -> EnvView {
    EnvView { initialized: env.initialized.insert(class.bits), ..env }
}

/// The state after something happened in the game.
pub open spec fn playing(env: EnvView, game: MinionView) -> EnvView {
    EnvView { game, ..env }
}

impl Environment {
    /// An environment in which nothing has happened yet.
    pub fn new() -> (env: Environment)
        ensures
            env.depth() == 0,
            env@ == fresh(),
    {
        let env = Environment {
            cpu: Cpu { regs: [0;16] },
            mem: Mem::new(),
            objc: ObjC {
                objects: HostObjects::new(),
                initialized_classes: HashSet::new(),
                selectors: NameTable::new(),
                known_classes: NameTable::new(),
                message_type_info: None,
            },
            bundle_identifier: None,
            minion_jump: MinionJump::new(),
            notices: Vec::new(),
            nil_isa_count: 0,
            depth: DispatchDepth { value: 0 },
        };
        assert(env@ =~= fresh());
        env
    }

    /// How deep dispatches are nested in each other now.
    pub open spec fn depth(&self) -> nat {
        self.depth.get()
    }

    /// Counts a dispatch, unless dispatches are nested as deep as they may be.
    pub(crate) fn enter_dispatch(&mut self) -> (entered: bool)
        ensures
            entered == (old(self).depth() < MAX_DEPTH),
            final(self).depth() == old(self).depth() + (if entered {
                1int
            } else {
                0
            }),
            final(self)@ == old(self)@,
    {
        proof {
            use_type_invariant(&self.depth);
        }
        if self.depth.value >= MAX_DEPTH {
            return false;
        }
        self.depth = DispatchDepth { value: self.depth.value + 1 };
        true
    }

    /// Takes back the count of a dispatch.
    pub(crate) fn leave_dispatch(&mut self)
        ensures
            final(self).depth() == (if old(self).depth() > 0 {
                old(self).depth() - 1
            } else {
                0
            }),
            final(self)@ == old(self)@,
    {
        proof {
            use_type_invariant(&self.depth);
        }
        self.depth = DispatchDepth { value: self.depth.value.saturating_sub(1) };
    }

    /// Has `run` do what `call` asks for: in this environment, if a method is to be
    /// run, and else in one that has only this one's memory and tables.
    ///
    /// The count of nested dispatches is the dispatcher's own: each dispatch
    /// that is made in the course of the call takes its count back.
    pub(crate) fn call_host<F: Fn(HostCall, Environment) -> (Environment, u32)>(
        &mut self,
        run: &mut Runner<F>,
        call: HostCall,
    ) -> (answer: u32)
        ensures
            asked(
                old(run).host(),
                old(self).depth(),
                call,
                old(run).state(*old(self)),
                final(run).state(*final(self)),
                answer,
            ),
            final(run).host() == old(run).host(),
            final(self).depth() == old(self).depth(),
    {
        proof {
            use_type_invariant(&self.depth);
        }
        let ghost pre = run.state(*self);
        let depth: usize = self.depth.value;
        let mut handed = Environment::new();
        if let HostCall::Invoke(_) = call {
            std::mem::swap(self, &mut handed);
            assert(handed@ =~= handed_out(call, pre));
            let (after, answer) = run.call(call, handed);
            proof {
                use_type_invariant(&after.objc.objects);
            }
            let ghost left = after@;
            *self = after;
            self.depth = DispatchDepth { value: depth };
            assert(old(run).host()(old(self).depth(), call, handed_out(call, pre), left, answer));
            assert(run.state(*self) =~= taken_back(call, pre, left));
            answer
        } else {
            handed.depth = DispatchDepth { value: depth };
            std::mem::swap(&mut self.mem, &mut handed.mem);
            std::mem::swap(&mut self.objc.objects, &mut handed.objc.objects);
            std::mem::swap(&mut self.objc.selectors, &mut handed.objc.selectors);
            std::mem::swap(&mut self.objc.known_classes, &mut handed.objc.known_classes);
            assert(handed@ =~= handed_out(call, pre));
            let (after, answer) = run.call(call, handed);
            proof {
                use_type_invariant(&after.objc.objects);
            }
            let ghost left = after@;
            self.mem = after.mem;
            self.objc.objects = after.objc.objects;
            self.objc.selectors = after.objc.selectors;
            self.objc.known_classes = after.objc.known_classes;
            assert(old(run).host()(old(self).depth(), call, handed_out(call, pre), left, answer));
            assert(run.state(*self) =~= taken_back(call, pre, left));
            answer
        }
    }

    /// Whether the app that is running has the given identifier.
    pub fn is_app(&self, identifier: &str) -> (is: bool)
        ensures
            is == is_app(self@, identifier@),
    {
        match &self.bundle_identifier {
            Some(running) => same_text(running.as_str(), identifier),
            None => false,
        }
    }

    /// Sets registers 0 and 1, where a method leaves its result.
    pub fn return_words(&mut self, low: u32, high: u32)
        ensures
            final(self)@ == returning(old(self)@, low, high),
            final(self).depth() == old(self).depth(),
    {
        self.cpu.regs[0] = low;
        self.cpu.regs[1] = high;
        assert(self@ =~= returning(old(self)@, low, high));
    }

    /// Notes something.
    pub fn notice(&mut self, notice: Notice)
        ensures
            final(self)@ == noticing(old(self)@, notice),
            final(self).depth() == old(self).depth(),
    {
        self.notices.push(notice);
        assert(self@ =~= noticing(old(self)@, notice));
    }

    /// Notes something about Minion Jump.
    pub fn minion_notice(&mut self, notice: MinionNotice)
        ensures
            final(self)@ == minion_noticing(old(self)@, notice),
            final(self).depth() == old(self).depth(),
    {
        self.notice(Notice::MinionJump(notice));
    }

    /// Marks a class as initialized. Answers whether it was not marked before.
    pub fn mark_initialized(&mut self, class: Class) -> (new: bool)
        ensures
            new == !old(self)@.initialized.contains(class.bits),
            final(self)@ == marking(old(self)@, class),
            final(self).depth() == old(self).depth(),
    {
        let new: bool = self.objc.initialized_classes.insert(class.bits);
        assert(self@ =~= marking(old(self)@, class));
        new
    }

    /// Registers 0 to 3, where a method finds its first arguments.
    pub fn argument_registers(&self) -> (args: [u32; 4])
        ensures
            args@ == self@.regs.take(4),
    {
        let args: [u32; 4] = [
            self.cpu.regs[0],
            self.cpu.regs[1],
            self.cpu.regs[2],
            self.cpu.regs[3],
        ];
        assert(args@ =~= self@.regs.take(4));
        args
    }

    /// Sets registers 0 to 3.
    pub fn set_argument_registers(&mut self, args: [u32; 4])
        ensures
            final(self)@ == (EnvView {
                regs: old(self)@.regs.update(0, args@[0]).update(1, args@[1]).update(
                    2,
                    args@[2],
                ).update(3, args@[3]),
                ..old(self)@
            }),
            final(self).depth() == old(self).depth(),
    {
        self.cpu.regs[0] = args[0];
        self.cpu.regs[1] = args[1];
        self.cpu.regs[2] = args[2];
        self.cpu.regs[3] = args[3];
    }
}

} // verus!
