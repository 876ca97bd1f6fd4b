//! Objective-C messaging for an emulator of 32-bit apps: `objc_msgSend` and its
//! variants, with what they need of the emulator's state.
//!
//! - [text], [names], [mem] and [classes] are the tables that a message is
//!   looked up in, and [types] the pointers that it is made of.
//! - [environment] is the state as a whole. Methods, and the few other things
//!   that only the rest of the emulator can do, are run by a function that the
//!   caller passes in a [runner], which logs what is run.
//! - [abi] and [signature] say how arguments and results are passed.
//! - [minion_jump] keeps the menu buttons of one game, which get their callbacks
//!   from the dispatcher.
//! - [semantics] states what sending a message does, [messages] does it, [laws]
//!   states what follows for all messages, and [alike] what does not matter to
//!   them.
//! - [dispatch_laws], [sending_laws], [argument_laws] and [menu_laws] state what a
//!   message comes to in the end: over classes and methods, registers and stack,
//!   words, and menu buttons.

#![allow(non_camel_case_types, non_snake_case)]

pub mod abi;
pub mod alike;
pub mod argument_laws;
pub mod classes;
pub mod dispatch_laws;
pub mod environment;
pub mod laws;
pub mod mem;
pub mod menu_laws;
pub mod messages;
pub mod minion_jump;
pub mod names;
pub mod runner;
pub mod semantics;
pub mod sending_laws;
pub mod signature;
pub mod text;
pub mod types;
