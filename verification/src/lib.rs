//! Bundle resolution and execution dispatch for a portable application launcher.
//!
//! A bundle is a directory tree that holds programs together with the shared
//! libraries and the dynamic linker they run with. The launcher finds the bundle
//! it belongs to, decides which program an invocation asks for, assembles the
//! library search path and the environment of the program, and hands control to
//! the dynamic linker of the bundle.
//!
//! This crate holds the decisions of the launcher, each as a function from plain
//! values to plain values with a contract that Verus proves. It never looks at
//! the disk or at the process: the caller reads files, walks directories and
//! probes paths, hands in what it found, and carries out what comes back.
//!
//! - [`text`]: sequences of characters, the model of every path, name and line.
//! - [`paths`]: names and directories of paths, file metadata, search path lookup.
//! - [`environ`]: the environment as an explicit, ordered value.
//! - [`libpath`]: the scan of a library tree and its relocatable cache file.
//! - [`interp`]: the choice of the dynamic linker.
//! - [`elf`]: ELF classification and the rewriting of `PT_INTERP`.
//! - [`shebang`]: scripts and their interpreters.
//! - [`rules`], [`tables`], [`datadirs`]: the derivation of the environment from
//!   the directories of the bundle.
//! - [`dispatch`]: the root of the bundle, the identity of an invocation and its
//!   route.
//! - [`handoff`]: the last changes to the environment and the arguments of the
//!   dynamic linker.
//! - [`helper`]: the bundle-authoring helper.
//! - [`errors`]: the kinds of failure and their messages.

pub mod datadirs;
pub mod dispatch;
pub mod elf;
pub mod environ;
pub mod errors;
pub mod handoff;
pub mod helper;
pub mod interp;
pub mod libpath;
pub mod paths;
pub mod rules;
pub mod shebang;
pub mod tables;
pub mod text;
