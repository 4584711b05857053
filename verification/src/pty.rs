//! The trusted boundary to the native PTY layer (the `portable_pty` crate)
//! and to the per-session writer handles. Everything here is believed, not
//! proved: each item's contract states only what the crate's own source
//! shows, for the Unix implementation this library runs on.

use vstd::prelude::*;
use std::io::Write;

verus! {

#[verifier::external_type_specification]
#[verifier::external_body]
pub struct ExPtyPair(portable_pty::PtyPair);

#[verifier::external_type_specification]
#[verifier::external_body]
pub struct ExCommandBuilder(portable_pty::CommandBuilder);

/// The environment the command built by a `CommandBuilder` will be spawned
/// with: `CommandBuilder` keeps one environment map, seeded from the
/// ambient process environment, and `spawn_command` clears the child's
/// environment and applies exactly this map.
pub uninterp spec fn cmd_env_of(c: portable_pty::CommandBuilder) -> Map<Seq<char>, Seq<char>>;

/// The argument list (program first) of the command built by a
/// `CommandBuilder`.
pub uninterp spec fn cmd_argv_of(c: portable_pty::CommandBuilder) -> Seq<Seq<char>>;

/// Relies on `CommandBuilder::new`: a builder whose argument list holds
/// just the program. Its environment map is seeded from the ambient
/// process environment, of which nothing can be assumed here.
#[verifier::external_body]
pub(crate) fn cmd_new(prog: &String) -> (c: portable_pty::CommandBuilder)
    ensures
        cmd_argv_of(c) == seq![prog@],
{
    portable_pty::CommandBuilder::new(prog)
}

/// Relies on `CommandBuilder::arg`: appends one argument; the environment
/// map is untouched.
#[verifier::external_body]
pub(crate) fn cmd_arg(c: &mut portable_pty::CommandBuilder, a: &str)
    ensures
        cmd_argv_of(*final(c)) == cmd_argv_of(*old(c)).push(a@),
        cmd_env_of(*final(c)) == cmd_env_of(*old(c)),
{
    c.arg(a);
}

/// Relies on `CommandBuilder::env`: inserts (or overwrites) one variable
/// in the environment map; on Unix keys are kept verbatim.
#[verifier::external_body]
pub(crate) fn cmd_env_set(c: &mut portable_pty::CommandBuilder, k: &str, v: &str)
    ensures
        cmd_env_of(*final(c)) == cmd_env_of(*old(c)).insert(k@, v@),
        cmd_argv_of(*final(c)) == cmd_argv_of(*old(c)),
{
    c.env(k, v);
}

/// Relies on `CommandBuilder::env_remove`: removes one variable from the
/// environment map, if present; on Unix keys are matched verbatim.
#[verifier::external_body]
pub(crate) fn cmd_env_remove(c: &mut portable_pty::CommandBuilder, k: &str)
    ensures
        cmd_env_of(*final(c)) == cmd_env_of(*old(c)).remove(k@),
        cmd_argv_of(*final(c)) == cmd_argv_of(*old(c)),
{
    c.env_remove(k);
}

/// Relies on `CommandBuilder::cwd`: sets the working directory the command
/// will start in; argument list and environment map are untouched.
#[verifier::external_body]
pub(crate) fn cmd_cwd(c: &mut portable_pty::CommandBuilder, dir: &String)
    ensures
        cmd_env_of(*final(c)) == cmd_env_of(*old(c)),
        cmd_argv_of(*final(c)) == cmd_argv_of(*old(c)),
{
    c.cwd(dir);
}

/// Relies on `native_pty_system().openpty`: opens a kernel PTY pair at the
/// given dimensions (pixel sizes zero), or reports the failure.
#[verifier::external_body]
pub(crate) fn open_pty(cols: u16, rows: u16) -> (r: Result<portable_pty::PtyPair, String>)
{
    portable_pty::native_pty_system()
        .openpty(portable_pty::PtySize { rows, cols, pixel_width: 0, pixel_height: 0 })
        .map_err(|e| e.to_string())
}

/// Relies on `SlavePty::spawn_command`: spawns the built command attached
/// to the PTY slave. The child handle is dropped: the session tracks the
/// child only through the PTY pair itself.
#[verifier::external_body]
pub(crate) fn spawn_shell(pair: &portable_pty::PtyPair, cmd: portable_pty::CommandBuilder) -> (r:
    Result<(), String>)
{
    match pair.slave.spawn_command(cmd) {
        Ok(_child) => Ok(()),
        Err(e) => Err(e.to_string()),
    }
}

/// Relies on `MasterPty::resize`: applies the new size to the kernel PTY
/// (pixel sizes zero) and lets the child observe it.
#[verifier::external_body]
pub(crate) fn pty_resize(pair: &portable_pty::PtyPair, cols: u16, rows: u16) -> (r: Result<
    (),
    String,
>)
{
    pair.master
        .resize(portable_pty::PtySize { rows, cols, pixel_width: 0, pixel_height: 0 })
        .map_err(|e| e.to_string())
}

/// The writer handles of live sessions, keyed by session id. The handles
/// are `Write` trait objects, which Verus cannot hold in any declared
/// type, so the map stays whole behind this opaque struct and is spoken of
/// only through `writer_ids`.
#[verifier::external_body]
pub struct WriterStore {
    map: std::collections::HashMap<String, Box<dyn Write>>,
}

/// The set of session ids that currently own a writer handle in the store.
pub uninterp spec fn writer_ids(s: WriterStore) -> Set<Seq<char>>;

/// Relies on `HashMap::new`: a store with no writers.
#[verifier::external_body]
pub(crate) fn writers_new() -> (s: WriterStore)
    ensures
        writer_ids(s) == Set::<Seq<char>>::empty(),
{
    WriterStore { map: std::collections::HashMap::new() }
}

/// Relies on `MasterPty::take_writer` and `HashMap::insert`: takes the PTY
/// master's single writer handle (this can be done once per PTY; the pair
/// handed in here is always freshly opened) and stores it under the
/// session id, dropping any previous handle under that id.
#[verifier::external_body]
pub(crate) fn writers_insert(s: &mut WriterStore, id: &String, pair: &portable_pty::PtyPair) -> (r:
    Result<(), String>)
    ensures
        r is Ok ==> writer_ids(*final(s)) == writer_ids(*old(s)).insert(id@),
        r is Err ==> writer_ids(*final(s)) == writer_ids(*old(s)),
{
    match pair.master.take_writer() {
        Ok(w) => {
            s.map.insert(id.clone(), w);
            Ok(())
        },
        Err(e) => Err(e.to_string()),
    }
}

/// Relies on `HashMap::get_mut` and `io::Write::write_all`: writes the
/// whole buffer to the session's writer handle; the stored ids are
/// unchanged either way.
#[verifier::external_body]
pub(crate) fn writers_write(s: &mut WriterStore, id: &String, data: &[u8]) -> (r: Result<
    (),
    String,
>)
    requires
        writer_ids(*old(s)).contains(id@),
    ensures
        writer_ids(*final(s)) == writer_ids(*old(s)),
{
    match s.map.get_mut(id) {
        Some(w) => w.write_all(data).map_err(|e| e.to_string()),
        None => Err("Session not found".to_string()),
    }
}

/// Relies on `HashMap::remove`: drops the session's writer handle, if it
/// holds one.
#[verifier::external_body]
pub(crate) fn writers_remove(s: &mut WriterStore, id: &String)
    ensures
        writer_ids(*final(s)) == writer_ids(*old(s)).remove(id@),
{
    s.map.remove(id);
}

} // verus!
