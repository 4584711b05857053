//! The PTY launcher, the session registry and the command surface: create,
//! write, resize, close. The registry maps each session id to its live
//! resources and last applied dimensions; dimensions are always non-zero,
//! ids are unique, and every registered session owns exactly one writer
//! handle in the writer store.

use vstd::prelude::*;
use crate::env::denied_keys;
use crate::env::sanitize_env;
use crate::pty::cmd_arg;
use crate::pty::cmd_argv_of;
use crate::pty::cmd_cwd;
use crate::pty::cmd_env_of;
use crate::pty::cmd_env_set;
use crate::pty::cmd_new;
use crate::pty::open_pty;
use crate::pty::pty_resize;
use crate::pty::spawn_shell;
use crate::pty::writer_ids;
use crate::pty::writers_insert;
use crate::pty::writers_new;
use crate::pty::writers_remove;
use crate::pty::writers_write;
use crate::pty::WriterStore;
use crate::strutil::dec_of;
use crate::strutil::dec_string;

verus! {

/// The canonical variables a spawned shell always receives, applied on top
/// of the sanitized base environment.
pub open spec fn canonical_env(
    base: Map<Seq<char>, Seq<char>>,
    shell: Seq<char>,
    cols: u16,
    rows: u16,
) -> Map<Seq<char>, Seq<char>> {
    base.insert("SHELL"@, shell).insert("TERM"@, "xterm-256color"@).insert(
        "TERM_PROGRAM"@,
        "zynthetix-autoagent"@,
    ).insert("COLORTERM"@, "truecolor"@).insert("COLUMNS"@, dec_of(cols as nat)).insert(
        "LINES"@,
        dec_of(rows as nat),
    ).insert("FORCE_COLOR"@, "3"@).insert("CLICOLOR_FORCE"@, "1"@).insert(
        "PROMPT_EOL_MARK"@,
        ""@,
    )
}

/// Turn a freshly created builder into the full login-shell invocation:
/// append the login flag, sanitize the environment, apply the canonical
/// variables, and set the working directory if one was given.
pub fn configure_shell_command(
    cmd: &mut portable_pty::CommandBuilder,
    shell: &String,
    cols: u16,
    rows: u16,
    cwd: Option<&String>,
    ambient: &Vec<String>,
)
    ensures
        cmd_argv_of(*final(cmd)) == cmd_argv_of(*old(cmd)).push("-l"@),
        cmd_env_of(*final(cmd)) == canonical_env(
            cmd_env_of(*old(cmd)).remove_keys(denied_keys(ambient@.map_values(|n: String| n@))),
            shell@,
            cols,
            rows,
        ),
{
    cmd_arg(cmd, "-l");
    sanitize_env(cmd, ambient);
    cmd_env_set(cmd, "SHELL", shell.as_str());
    cmd_env_set(cmd, "TERM", "xterm-256color");
    cmd_env_set(cmd, "TERM_PROGRAM", "zynthetix-autoagent");
    cmd_env_set(cmd, "COLORTERM", "truecolor");
    let cols_s = dec_string(cols);
    cmd_env_set(cmd, "COLUMNS", cols_s.as_str());
    let rows_s = dec_string(rows);
    cmd_env_set(cmd, "LINES", rows_s.as_str());
    cmd_env_set(cmd, "FORCE_COLOR", "3");
    cmd_env_set(cmd, "CLICOLOR_FORCE", "1");
    cmd_env_set(cmd, "PROMPT_EOL_MARK", "");
    match cwd {
        Some(dir) => cmd_cwd(cmd, dir),
        None => (),
    }
}

/// The validation error for zero dimensions.
pub open spec fn invalid_dims_msg(cols: u16, rows: u16) -> Seq<char> {
    "Invalid PTY dimensions: "@ + dec_of(cols as nat) + "x"@ + dec_of(rows as nat)
}

/// The error reported when an operation names an id with no live session.
pub open spec fn not_found_msg() -> Seq<char> {
    "Session not found"@
}

/// Open a PTY at the given dimensions and spawn the login shell attached
/// to its slave end, with a sanitized environment. `shell` is the value of
/// the `SHELL` variable if the host found one (a standard shell path is
/// the fallback); `ambient` lists the names of the ambient environment.
/// Zero dimensions are rejected before any resource is touched; failures
/// to open or spawn are reported as the underlying error text.
pub fn launch_shell(
    cols: u16,
    rows: u16,
    cwd: Option<&String>,
    shell: Option<String>,
    ambient: &Vec<String>,
) -> (r: Result<portable_pty::PtyPair, String>)
    ensures
        (cols == 0 || rows == 0) ==> (r is Err && r->Err_0@ == invalid_dims_msg(cols, rows)),
        r is Ok ==> cols > 0 && rows > 0,
{
    if cols == 0 || rows == 0 {
        let mut msg = "Invalid PTY dimensions: ".to_owned();
        let cs = dec_string(cols);
        msg.append(cs.as_str());
        msg.append("x");
        let rs = dec_string(rows);
        msg.append(rs.as_str());
        return Err(msg);
    }
    let pair = match open_pty(cols, rows) {
        Ok(p) => p,
        Err(e) => {
            return Err(e);
        },
    };
    let shell_path = match shell {
        Some(s) => s,
        None => "/bin/zsh".to_owned(),
    };
    let mut cmd = cmd_new(&shell_path);
    configure_shell_command(&mut cmd, &shell_path, cols, rows, cwd, ambient);
    match spawn_shell(&pair, cmd) {
        Ok(()) => Ok(pair),
        Err(e) => Err(e),
    }
}

/// One live session: its id, the PTY pair (master and slave), and the last
/// applied dimensions, kept to skip redundant native resize calls.
pub struct PtySession {
    pub id: String,
    pub pair: portable_pty::PtyPair,
    pub cols: u16,
    pub rows: u16,
}

/// The registry's view: session id to last applied (cols, rows).
pub open spec fn entries_map(s: Seq<PtySession>) -> Map<Seq<char>, (u16, u16)>
    decreases s.len(),
{
    if s.len() == 0 {
        Map::empty()
    } else {
        entries_map(s.drop_last()).insert(s.last().id@, (s.last().cols, s.last().rows))
    }
}

/// Ids are pairwise distinct.
pub open spec fn unique_ids(s: Seq<PtySession>) -> bool {
    forall|i: int, j: int| 0 <= i < j < s.len() ==> s[i].id@ != s[j].id@
}

proof fn lemma_entries_map_dom(s: Seq<PtySession>)
    ensures
        forall|k: Seq<char>| #![trigger entries_map(s).dom().contains(k)]
            entries_map(s).dom().contains(k) <==> exists|i: int| 0 <= i < s.len() && s[i].id@ == k,
    decreases s.len(),
{
    if s.len() > 0 {
        lemma_entries_map_dom(s.drop_last());
        assert forall|k: Seq<char>| #[trigger] entries_map(s).dom().contains(k) implies exists|
            i: int,
        | 0 <= i < s.len() && s[i].id@ == k by {
            if k == s.last().id@ {
                assert(s[s.len() - 1].id@ == k);
            } else {
                assert(entries_map(s.drop_last()).dom().contains(k));
                let i = choose|i: int| 0 <= i < s.drop_last().len() && s.drop_last()[i].id@ == k;
                assert(s[i].id@ == k);
            }
        }
        assert forall|k: Seq<char>| exists|i: int| 0 <= i < s.len() && s[i].id@ == k implies #[trigger]
            entries_map(s).dom().contains(k) by {
            let i = choose|i: int| 0 <= i < s.len() && s[i].id@ == k;
            if i == s.len() - 1 {
            } else {
                assert(s.drop_last()[i].id@ == k);
                assert(entries_map(s.drop_last()).dom().contains(k));
            }
        }
    }
}

proof fn lemma_entries_map_at(s: Seq<PtySession>, i: int)
    requires
        unique_ids(s),
        0 <= i < s.len(),
    ensures
        entries_map(s).dom().contains(s[i].id@),
        entries_map(s)[s[i].id@] == (s[i].cols, s[i].rows),
    decreases s.len(),
{
    if i == s.len() - 1 {
    } else {
        lemma_entries_map_at(s.drop_last(), i);
        assert(s.last().id@ != s[i].id@);
    }
}

proof fn lemma_entries_map_remove(s: Seq<PtySession>, i: int)
    requires
        unique_ids(s),
        0 <= i < s.len(),
    ensures
        entries_map(s.remove(i)) == entries_map(s).remove(s[i].id@),
        unique_ids(s.remove(i)),
        !entries_map(s.remove(i)).dom().contains(s[i].id@),
    decreases s.len(),
{
    lemma_entries_map_dom(s.remove(i));
    assert(forall|j: int| 0 <= j < s.remove(i).len() ==> s.remove(i)[j].id@ != s[i].id@);
    if i == s.len() - 1 {
        assert(s.remove(i) =~= s.drop_last());
        lemma_entries_map_dom(s.drop_last());
        assert(!entries_map(s.drop_last()).dom().contains(s.last().id@));
        assert(entries_map(s.drop_last()) =~= entries_map(s).remove(s[i].id@));
    } else {
        lemma_entries_map_remove(s.drop_last(), i);
        assert(s.remove(i).drop_last() =~= s.drop_last().remove(i));
        assert(s.remove(i).last() == s.last());
        assert(entries_map(s.remove(i)) == entries_map(s.drop_last().remove(i)).insert(
            s.last().id@,
            (s.last().cols, s.last().rows),
        ));
        assert(s[i].id@ != s.last().id@);
        assert(entries_map(s.drop_last()).remove(s[i].id@).insert(
            s.last().id@,
            (s.last().cols, s.last().rows),
        ) =~= entries_map(s).remove(s[i].id@));
    }
}

/// The session registry and command surface. One manager owns every live
/// session; the host holds it at one point of mutual exclusion and calls
/// the four operations below.
pub struct PtyManager {
    pub sessions: Vec<PtySession>,
    pub writers: WriterStore,
    /// How many native resize calls have been issued, in the ghost world:
    /// lets the contracts say that redundant resizes issue none.
    pub native_resizes: Ghost<nat>,
}

impl PtyManager {
    /// Registry view: each registered id with its last applied dimensions.
    pub open spec fn dims(self) -> Map<Seq<char>, (u16, u16)> {
        entries_map(self.sessions@)
    }

    /// Ids unique, all dimensions non-zero, and the writer store holds a
    /// handle for exactly the registered ids.
    pub open spec fn wf(self) -> bool {
        &&& unique_ids(self.sessions@)
        &&& (forall|i: int|
            0 <= i < self.sessions@.len() ==> (#[trigger] self.sessions@[i].cols) > 0
                && self.sessions@[i].rows > 0)
        &&& writer_ids(self.writers) == self.dims().dom()
    }

    pub fn new() -> (m: PtyManager)
        ensures
            m.wf(),
            m.dims() == Map::<Seq<char>, (u16, u16)>::empty(),
            m.native_resizes@ == 0,
    {
        let m = PtyManager {
            sessions: Vec::new(),
            writers: writers_new(),
            native_resizes: Ghost(0),
        };
        proof {
            assert(m.dims() =~= Map::<Seq<char>, (u16, u16)>::empty());
            assert(writer_ids(m.writers) =~= m.dims().dom());
        }
        m
    }

    /// Index of the session with this id, if one is registered.
    fn find(&self, id: &String) -> (r: Option<usize>)
        requires
            self.wf(),
        ensures
            match r {
                Some(i) => i < self.sessions@.len() && self.sessions@[i as int].id@ == id@,
                None => !self.dims().dom().contains(id@),
            },
    {
        proof {
            lemma_entries_map_dom(self.sessions@);
        }
        let mut i: usize = 0;
        while i < self.sessions.len()
            invariant
                i <= self.sessions@.len(),
                forall|j: int| 0 <= j < i ==> self.sessions@[j].id@ != id@,
            decreases self.sessions@.len() - i,
        {
            if self.sessions[i].id == *id {
                return Some(i);
            }
            i = i + 1;
        }
        None
    }

    /// Register a freshly launched session: take the PTY master's writer
    /// handle into the writer store and record the session under its id,
    /// releasing whatever a previous session under the same id owned. On
    /// failure to obtain the writer, nothing is registered and the pair is
    /// dropped (closing the new PTY).
    pub fn register_session(
        &mut self,
        id: String,
        pair: portable_pty::PtyPair,
        cols: u16,
        rows: u16,
    ) -> (r: Result<(), String>)
        requires
            old(self).wf(),
            cols > 0,
            rows > 0,
        ensures
            final(self).wf(),
            r is Ok ==> final(self).dims() == old(self).dims().insert(id@, (cols, rows)),
            r is Err ==> final(self).dims() == old(self).dims(),
            final(self).native_resizes@ == old(self).native_resizes@,
    {
        let found = self.find(&id);
        match writers_insert(&mut self.writers, &id, &pair) {
            Ok(()) => {
                match found {
                    Some(i) => {
                        proof {
                            lemma_entries_map_remove(self.sessions@, i as int);
                        }
                        let _old_session = self.sessions.remove(i);
                    },
                    None => (),
                }
                let ghost pruned = self.sessions@;
                proof {
                    lemma_entries_map_dom(pruned);
                    assert(!entries_map(pruned).dom().contains(id@));
                    assert(entries_map(pruned) =~= old(self).dims().remove(id@));
                }
                self.sessions.push(PtySession { id, pair, cols, rows });
                proof {
                    assert(self.sessions@.drop_last() =~= pruned);
                    assert(self.sessions@.last().id@ == id@);
                    assert(forall|j: int| 0 <= j < pruned.len() ==> pruned[j].id@ != id@);
                    assert(unique_ids(self.sessions@));
                    assert(self.dims() =~= old(self).dims().insert(
                        self.sessions@.last().id@,
                        (cols, rows),
                    ));
                    assert(writer_ids(self.writers) =~= self.dims().dom());
                }
                Ok(())
            },
            Err(e) => Err(e),
        }
    }

    /// Forward raw bytes to the session's PTY writer. An unknown id is the
    /// not-found error; a write failure is reported and the session stays
    /// registered. The registry itself never changes.
    pub fn write_pty(&mut self, id: &String, data: &str) -> (r: Result<(), String>)
        requires
            old(self).wf(),
        ensures
            final(self).wf(),
            final(self).dims() == old(self).dims(),
            final(self).native_resizes@ == old(self).native_resizes@,
            !old(self).dims().dom().contains(id@) ==> (r is Err && r->Err_0@
                == not_found_msg()),
            r is Ok ==> old(self).dims().dom().contains(id@),
    {
        match self.find(id) {
            Some(i) => {
                proof {
                    lemma_entries_map_at(self.sessions@, i as int);
                }
                writers_write(&mut self.writers, id, data.as_bytes())
            },
            None => Err("Session not found".to_owned()),
        }
    }

    /// Apply new dimensions to a session. Equal dimensions are a no-op
    /// success issuing no native resize call; otherwise one native call is
    /// issued and, on success, the stored dimensions are updated. Zero
    /// dimensions are rejected as on create; an unknown id is the
    /// not-found error.
    #[verifier::rlimit(50)]
    pub fn resize_pty(&mut self, id: &String, cols: u16, rows: u16) -> (r: Result<(), String>)
        requires
            old(self).wf(),
        ensures
            final(self).wf(),
            (cols == 0 || rows == 0) ==> (r is Err && r->Err_0@ == invalid_dims_msg(cols, rows)
                && final(self).dims() == old(self).dims() && final(self).native_resizes@
                == old(self).native_resizes@),
            (cols > 0 && rows > 0 && !old(self).dims().dom().contains(id@)) ==> (r is Err
                && r->Err_0@ == not_found_msg() && final(self).dims() == old(self).dims()
                && final(self).native_resizes@ == old(self).native_resizes@),
            (cols > 0 && rows > 0 && old(self).dims().dom().contains(id@) && old(self).dims()[id@]
                == (cols, rows)) ==> (r is Ok && final(self).dims() == old(self).dims()
                && final(self).native_resizes@ == old(self).native_resizes@),
            (cols > 0 && rows > 0 && old(self).dims().dom().contains(id@) && old(self).dims()[id@]
                != (cols, rows)) ==> (final(self).native_resizes@ == old(self).native_resizes@ + 1
                && (r is Ok ==> final(self).dims() == old(self).dims().insert(id@, (cols, rows)))
                && (r is Err ==> final(self).dims() == old(self).dims())),
    {
        if cols == 0 || rows == 0 {
            let mut msg = "Invalid PTY dimensions: ".to_owned();
            let cs = dec_string(cols);
            msg.append(cs.as_str());
            msg.append("x");
            let rs = dec_string(rows);
            msg.append(rs.as_str());
            return Err(msg);
        }
        match self.find(id) {
            Some(i) => {
                proof {
                    lemma_entries_map_at(self.sessions@, i as int);
                    lemma_entries_map_remove(self.sessions@, i as int);
                }
                let mut sess = self.sessions.remove(i);
                if sess.cols == cols && sess.rows == rows {
                    let ghost pruned = self.sessions@;
                    self.sessions.push(sess);
                    proof {
                        assert(self.sessions@.drop_last() =~= pruned);
                        assert(forall|j: int|
                            0 <= j < pruned.len() ==> ((#[trigger] pruned[j].cols) > 0
                                && pruned[j].rows > 0));
                        assert(forall|j: int|
                            0 <= j < self.sessions@.len() ==> ((#[trigger] self.sessions@[j].cols)
                                > 0 && self.sessions@[j].rows > 0));
                        assert(unique_ids(self.sessions@));
                        assert(self.dims() =~= old(self).dims());
                        assert(writer_ids(self.writers) =~= self.dims().dom());
                        assert(self.wf());
                    }
                    return Ok(());
                }
                let outcome = pty_resize(&sess.pair, cols, rows);
                proof {
                    self.native_resizes@ = self.native_resizes@ + 1;
                }
                match outcome {
                    Ok(()) => {
                        sess.cols = cols;
                        sess.rows = rows;
                        let ghost pruned = self.sessions@;
                        self.sessions.push(sess);
                        proof {
                            assert(self.sessions@.drop_last() =~= pruned);
                            assert(forall|j: int|
                            0 <= j < pruned.len() ==> ((#[trigger] pruned[j].cols) > 0
                                    && pruned[j].rows > 0));
                            assert(forall|j: int|
                            0 <= j < self.sessions@.len() ==> ((#[trigger] self.sessions@[j].cols)
                                    > 0 && self.sessions@[j].rows > 0));
                            assert(unique_ids(self.sessions@));
                            assert(self.dims() =~= old(self).dims().insert(id@, (cols, rows)));
                            assert(writer_ids(self.writers) =~= self.dims().dom());
                            assert(self.wf());
                        }
                        Ok(())
                    },
                    Err(e) => {
                        let ghost pruned = self.sessions@;
                        self.sessions.push(sess);
                        proof {
                            assert(self.sessions@.drop_last() =~= pruned);
                            assert(forall|j: int|
                            0 <= j < pruned.len() ==> ((#[trigger] pruned[j].cols) > 0
                                    && pruned[j].rows > 0));
                            assert(forall|j: int|
                            0 <= j < self.sessions@.len() ==> ((#[trigger] self.sessions@[j].cols)
                                    > 0 && self.sessions@[j].rows > 0));
                            assert(unique_ids(self.sessions@));
                            assert(self.dims() =~= old(self).dims());
                            assert(writer_ids(self.writers) =~= self.dims().dom());
                            assert(self.wf());
                        }
                        Err(e)
                    },
                }
            },
            None => Err("Session not found".to_owned()),
        }
    }

    /// Remove a session and drop its resources: the writer handle and the
    /// PTY pair, which closes the PTY and lets the child terminate and the
    /// pipeline wind down. Closing an unknown or already-closed id is a
    /// silent success.
    pub fn close_pty(&mut self, id: &String) -> (r: Result<(), String>)
        requires
            old(self).wf(),
        ensures
            final(self).wf(),
            r is Ok,
            final(self).dims() == old(self).dims().remove(id@),
            !old(self).dims().dom().contains(id@) ==> final(self).dims() == old(self).dims(),
            final(self).native_resizes@ == old(self).native_resizes@,
    {
        match self.find(id) {
            Some(i) => {
                proof {
                    lemma_entries_map_remove(self.sessions@, i as int);
                }
                let _old_session = self.sessions.remove(i);
                writers_remove(&mut self.writers, id);
                proof {
                    assert(writer_ids(self.writers) =~= self.dims().dom());
                }
                Ok(())
            },
            None => {
                proof {
                    assert(old(self).dims().remove(id@) =~= old(self).dims());
                }
                Ok(())
            },
        }
    }
}

} // verus!
