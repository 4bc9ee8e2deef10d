//! The verified session registry.
//!
//! The registry is the single authoritative directory of live pty sessions,
//! keyed by caller-supplied tab ids. Its mathematical view is a map from
//! each open id to the image of its session (`SessionView`); every
//! operation's contract states its exact effect on that map. Unknown ids are
//! never an error: write, resize and close are silent no-ops and read yields
//! an empty result, so a caller may race a close against other operations
//! without receiving spurious failures.

use vstd::prelude::*;

use crate::pty;

verus! {

/// Default number of rows for a newly created session.
pub const DEFAULT_ROWS: u16 = 30;

/// Default number of columns for a newly created session.
pub const DEFAULT_COLS: u16 = 120;

/// The shell launched into every session: a fixed configuration value with a
/// safe, explicit default, never inferred from the ambient environment.
pub const SHELL_PROGRAM: &'static str = "sh";

/// Name of the environment variable that announces the terminal type to the
/// spawned shell.
pub const TERM_KEY: &'static str = "TERM";

/// The terminal type declared to the spawned shell, for colour-capable
/// rendering.
pub const TERM_VALUE: &'static str = "xterm-256color";

/// Why a registry operation failed. An unknown session id is never a
/// failure: it makes the operation a no-op instead (see each operation's
/// contract).
#[derive(Debug)]
pub enum PtyError {
    /// The OS could not allocate the pty pair or hand out its I/O handles.
    AllocationFailure(String),
    /// The shell process could not be launched on the slave side.
    SpawnFailure(String),
    /// An I/O error occurred while writing to a live session.
    WriteFailure(String),
    /// An I/O error occurred while changing a live session's geometry.
    ResizeFailure(String),
}

impl PtyError {
    /// The descriptive message carried by the failure.
    pub open spec fn message_spec(self) -> Seq<char> {
        match self {
            PtyError::AllocationFailure(m) => m@,
            PtyError::SpawnFailure(m) => m@,
            PtyError::WriteFailure(m) => m@,
            PtyError::ResizeFailure(m) => m@,
        }
    }

    /// The descriptive message carried by the failure.
    pub fn message(&self) -> (r: &String)
        ensures
            r@ == self.message_spec(),
    {
        match self {
            PtyError::AllocationFailure(m) => m,
            PtyError::SpawnFailure(m) => m,
            PtyError::WriteFailure(m) => m,
            PtyError::ResizeFailure(m) => m,
        }
    }
}

/// The mathematical image of one live session: its advisory geometry and the
/// text delivered to the shell so far.
pub struct SessionView {
    /// Current number of rows.
    pub rows: u16,
    /// Current number of columns.
    pub cols: u16,
    /// Concatenation of every write payload this session completed in full.
    /// A write that reported a failure does not count here, even though a
    /// prefix of its payload may have reached the shell.
    pub sent: Seq<char>,
}

/// One live shell: the four jointly-owned pty handles plus the advisory
/// geometry. The handles are destroyed together when the session leaves the
/// registry; the spawned shell process itself is fire-and-forget.
struct Session {
    writer: pty::PtyWriter,
    reader: pty::PtyReader,
    master: pty::PtyMaster,
    slave: pty::PtySlave,
    rows: u16,
    cols: u16,
    sent: Ghost<Seq<char>>,
}

impl Session {
    spec fn view(&self) -> SessionView {
        SessionView { rows: self.rows, cols: self.cols, sent: self.sent@ }
    }
}

/// One registry slot: a tab id and the session it owns.
struct Entry {
    id: String,
    session: Session,
}

/// Whether some entry of `s` carries the id `k`.
spec fn has_id(s: Seq<Entry>, k: Seq<char>) -> bool {
    exists|i: int| 0 <= i < s.len() && s[i].id@ == k
}

/// The index of the entry of `s` that carries the id `k` (meaningful only
/// when `has_id(s, k)` and the ids of `s` are unique).
spec fn index_of(s: Seq<Entry>, k: Seq<char>) -> int {
    choose|i: int| 0 <= i < s.len() && s[i].id@ == k
}

/// No two entries of `s` carry the same id.
spec fn ids_unique(s: Seq<Entry>) -> bool {
    forall|i: int, j: int| #![trigger s[i], s[j]] 0 <= i < j < s.len() ==> s[i].id@ != s[j].id@
}

/// The directory that a sequence of entries denotes.
spec fn seq_view(s: Seq<Entry>) -> Map<Seq<char>, SessionView> {
    Map::new(|k: Seq<char>| has_id(s, k), |k: Seq<char>| s[index_of(s, k)].session.view())
}

/// With unique ids, the entry carrying `k` is the one `index_of` picks.
proof fn lemma_index_unique(s: Seq<Entry>, k: Seq<char>, i: int)
    requires
        ids_unique(s),
        0 <= i < s.len(),
        s[i].id@ == k,
    ensures
        has_id(s, k),
        index_of(s, k) == i,
{
    assert(has_id(s, k));
    let j = index_of(s, k);
    assert(0 <= j < s.len() && s[j].id@ == k);
    if i < j {
        assert(s[i].id@ != s[j].id@);
    } else if j < i {
        assert(s[j].id@ != s[i].id@);
    }
}

/// The directory holds exactly the entries' ids, each at its session's view.
proof fn lemma_view_at(s: Seq<Entry>, i: int)
    requires
        ids_unique(s),
        0 <= i < s.len(),
    ensures
        seq_view(s).dom().contains(s[i].id@),
        seq_view(s)[s[i].id@] == s[i].session.view(),
{
    lemma_index_unique(s, s[i].id@, i);
}

/// An id carried by no entry is absent from the directory.
proof fn lemma_view_absent(s: Seq<Entry>, k: Seq<char>)
    requires
        !has_id(s, k),
    ensures
        !seq_view(s).dom().contains(k),
{
}

/// Replacing the entry at `i` by one with the same id updates the directory
/// at that id alone.
proof fn lemma_view_update(s: Seq<Entry>, i: int, e: Entry)
    requires
        ids_unique(s),
        0 <= i < s.len(),
        e.id@ == s[i].id@,
    ensures
        ids_unique(s.update(i, e)),
        seq_view(s.update(i, e)) == seq_view(s).insert(e.id@, e.session.view()),
{
    let s2 = s.update(i, e);
    let k = e.id@;
    assert forall|k2: Seq<char>| has_id(s2, k2) implies seq_view(s).insert(k, e.session.view()).dom().contains(k2) by {
        let j = choose|j: int| 0 <= j < s2.len() && s2[j].id@ == k2;
        if j == i {
            assert(k2 == k);
        } else {
            assert(s[j].id@ == k2);
            lemma_index_unique(s, k2, j);
        }
    }
    assert forall|k2: Seq<char>| seq_view(s).insert(k, e.session.view()).dom().contains(k2) implies has_id(s2, k2) by {
        if k2 == k {
            assert(s2[i].id@ == k2);
        } else {
            let j = choose|j: int| 0 <= j < s.len() && s[j].id@ == k2;
            assert(s2[j].id@ == k2);
        }
    }
    assert forall|k2: Seq<char>| #[trigger] seq_view(s2).dom().contains(k2) implies seq_view(s2)[k2]
        == seq_view(s).insert(k, e.session.view())[k2] by {
        if k2 == k {
            lemma_index_unique(s2, k, i);
        } else {
            let j = choose|j: int| 0 <= j < s2.len() && s2[j].id@ == k2;
            assert(j != i);
            assert(s[j].id@ == k2);
            lemma_index_unique(s, k2, j);
            lemma_index_unique(s2, k2, j);
        }
    }
    assert(seq_view(s2) =~= seq_view(s).insert(k, e.session.view()));
}

/// Appending an entry with a fresh id adds exactly that id to the directory.
proof fn lemma_view_push(s: Seq<Entry>, e: Entry)
    requires
        ids_unique(s),
        !has_id(s, e.id@),
    ensures
        ids_unique(s.push(e)),
        seq_view(s.push(e)) == seq_view(s).insert(e.id@, e.session.view()),
{
    let s2 = s.push(e);
    let k = e.id@;
    assert(s2[s.len() as int] == e);
    assert forall|i: int, j: int| #![trigger s2[i], s2[j]] 0 <= i < j < s2.len() implies s2[i].id@ != s2[j].id@ by {
        if j < s.len() {
            assert(s2[i] == s[i] && s2[j] == s[j]);
        } else {
            assert(s2[i] == s[i] && s2[j] == e);
            assert(s[i].id@ != k);
        }
    }
    assert forall|k2: Seq<char>| has_id(s2, k2) implies seq_view(s).insert(k, e.session.view()).dom().contains(k2) by {
        let j = choose|j: int| 0 <= j < s2.len() && s2[j].id@ == k2;
        if j < s.len() {
            assert(s[j].id@ == k2);
        } else {
            assert(k2 == k);
        }
    }
    assert forall|k2: Seq<char>| seq_view(s).insert(k, e.session.view()).dom().contains(k2) implies has_id(s2, k2) by {
        if k2 == k {
            assert(s2[s.len() as int].id@ == k2);
        } else {
            let j = choose|j: int| 0 <= j < s.len() && s[j].id@ == k2;
            assert(s2[j].id@ == k2);
        }
    }
    assert forall|k2: Seq<char>| #[trigger] seq_view(s2).dom().contains(k2) implies seq_view(s2)[k2]
        == seq_view(s).insert(k, e.session.view())[k2] by {
        if k2 == k {
            lemma_index_unique(s2, k, s.len() as int);
        } else {
            let j = choose|j: int| 0 <= j < s2.len() && s2[j].id@ == k2;
            assert(j < s.len());
            assert(s[j].id@ == k2);
            lemma_index_unique(s, k2, j);
            lemma_index_unique(s2, k2, j);
        }
    }
    assert(seq_view(s2) =~= seq_view(s).insert(k, e.session.view()));
}

/// Deleting the entry at `i` removes exactly its id from the directory.
proof fn lemma_view_remove(s: Seq<Entry>, i: int)
    requires
        ids_unique(s),
        0 <= i < s.len(),
    ensures
        ids_unique(s.remove(i)),
        seq_view(s.remove(i)) == seq_view(s).remove(s[i].id@),
{
    let s2 = s.remove(i);
    let k = s[i].id@;
    assert forall|i2: int, j2: int| #![trigger s2[i2], s2[j2]] 0 <= i2 < j2 < s2.len() implies s2[i2].id@ != s2[j2].id@ by {
        let oi = if i2 < i { i2 } else { i2 + 1 };
        let oj = if j2 < i { j2 } else { j2 + 1 };
        assert(s2[i2] == s[oi] && s2[j2] == s[oj]);
        assert(s[oi].id@ != s[oj].id@);
    }
    assert forall|k2: Seq<char>| has_id(s2, k2) implies seq_view(s).remove(k).dom().contains(k2) by {
        let j = choose|j: int| 0 <= j < s2.len() && s2[j].id@ == k2;
        let oj = if j < i { j } else { j + 1 };
        assert(s[oj].id@ == k2);
        lemma_index_unique(s, k2, oj);
        assert(k2 != k);
    }
    assert forall|k2: Seq<char>| seq_view(s).remove(k).dom().contains(k2) implies has_id(s2, k2) by {
        let j = choose|j: int| 0 <= j < s.len() && s[j].id@ == k2;
        lemma_index_unique(s, k, i);
        assert(j != i);
        let nj = if j < i { j } else { j - 1 };
        assert(s2[nj] == s[j]);
        assert(s2[nj].id@ == k2);
    }
    assert forall|k2: Seq<char>| #[trigger] seq_view(s2).dom().contains(k2) implies seq_view(s2)[k2]
        == seq_view(s).remove(k)[k2] by {
        let j = choose|j: int| 0 <= j < s2.len() && s2[j].id@ == k2;
        let oj = if j < i { j } else { j + 1 };
        assert(s2[j] == s[oj]);
        lemma_index_unique(s, k2, oj);
        lemma_index_unique(s2, k2, j);
    }
    assert(seq_view(s2) =~= seq_view(s).remove(k));
}

/// The position of the entry carrying `id`, if any.
fn find_index(entries: &Vec<Entry>, id: &String) -> (r: Option<usize>)
    ensures
        match r {
            Some(i) => i < entries@.len() && entries@[i as int].id@ == id@,
            None => !has_id(entries@, id@),
        },
{
    let n = entries.len();
    let mut i: usize = 0;
    while i < n
        invariant
            n == entries@.len(),
            i <= n,
            forall|j: int| 0 <= j < i ==> entries@[j].id@ != id@,
        decreases n - i,
    {
        if entries[i].id == *id {
            return Some(i);
        }
        i = i + 1;
    }
    None
}

/// The session registry: the single authoritative, exclusively owned
/// directory of live pty sessions. Create it empty at process start and keep
/// it behind whatever synchronization the host needs; every operation takes
/// the registry exclusively for the duration of its lookup and mutation.
pub struct Registry {
    entries: Vec<Entry>,
}

impl View for Registry {
    type V = Map<Seq<char>, SessionView>;

    closed spec fn view(&self) -> Map<Seq<char>, SessionView> {
        seq_view(self.entries@)
    }
}

impl Registry {
    /// At most one session per id, so the directory really is a map.
    #[verifier::type_invariant]
    spec fn wf(&self) -> bool {
        ids_unique(self.entries@)
    }

    /// An empty registry: no session is open.
    pub fn new() -> (r: Registry)
        ensures
            r@ == Map::<Seq<char>, SessionView>::empty(),
    {
        let r = Registry { entries: Vec::new() };
        proof {
            assert(r@ =~= Map::<Seq<char>, SessionView>::empty());
        }
        r
    }

    /// Whether a session is currently open under `id`.
    pub fn has_session(&self, id: &str) -> (r: bool)
        ensures
            r == self@.dom().contains(id@),
    {
        proof {
            use_type_invariant(&*self);
        }
        let key: String = id.to_owned();
        match find_index(&self.entries, &key) {
            Some(i) => {
                proof {
                    lemma_view_at(self.entries@, i as int);
                }
                true
            },
            None => {
                proof {
                    lemma_view_absent(self.entries@, key@);
                }
                false
            },
        }
    }

    /// The current geometry of the session under `id`, if one is open.
    pub fn dimensions(&self, id: &str) -> (r: Option<(u16, u16)>)
        ensures
            r == if self@.dom().contains(id@) {
                Some((self@[id@].rows, self@[id@].cols))
            } else {
                None::<(u16, u16)>
            },
    {
        proof {
            use_type_invariant(&*self);
        }
        let key: String = id.to_owned();
        match find_index(&self.entries, &key) {
            Some(i) => {
                proof {
                    lemma_view_at(self.entries@, i as int);
                }
                Some((self.entries[i].session.rows, self.entries[i].session.cols))
            },
            None => {
                proof {
                    lemma_view_absent(self.entries@, key@);
                }
                None
            },
        }
    }

    /// Install `session` under `key`, replacing any predecessor: the
    /// replaced session's handles are released here, exactly as a close
    /// would release them.
    fn put_session(&mut self, key: String, session: Session)
        ensures
            final(self)@ == old(self)@.insert(key@, session.view()),
    {
        proof {
            use_type_invariant(&*self);
        }
        let mut entries: Vec<Entry> = Vec::new();
        core::mem::swap(&mut entries, &mut self.entries);
        match find_index(&entries, &key) {
            Some(i) => {
                let entry = Entry { id: key, session };
                proof {
                    lemma_view_update(entries@, i as int, entry);
                }
                entries[i] = entry;
            },
            None => {
                let entry = Entry { id: key, session };
                proof {
                    lemma_view_push(entries@, entry);
                }
                entries.push(entry);
            },
        }
        self.entries = entries;
    }

    /// Open a new session under `id` with the default geometry of
    /// `DEFAULT_ROWS` by `DEFAULT_COLS`, replacing any session already open
    /// under that id.
    pub fn create_shell(&mut self, id: &str) -> (r: Result<(), PtyError>)
        ensures
            r is Ok ==> final(self)@ == old(self)@.insert(
                id@,
                SessionView { rows: DEFAULT_ROWS, cols: DEFAULT_COLS, sent: Seq::empty() },
            ),
            r matches Err(e) ==> final(self)@ == old(self)@ && (e is AllocationFailure
                || e is SpawnFailure),
    {
        self.create_shell_sized(id, DEFAULT_ROWS, DEFAULT_COLS)
    }

    /// Open a new session under `id`: allocate one OS pty pair at `rows` by
    /// `cols` (pixel sizing left at zero), obtain the writer and an
    /// independent reader bound to its master side, and spawn the configured
    /// shell on its slave side with the terminal type declared. On success
    /// the session replaces any predecessor under `id`, whose resources are
    /// released; on failure everything allocated so far is released and the
    /// registry is exactly as it was, with no partial state retained.
    pub fn create_shell_sized(&mut self, id: &str, rows: u16, cols: u16) -> (r: Result<
        (),
        PtyError,
    >)
        ensures
            r is Ok ==> final(self)@ == old(self)@.insert(
                id@,
                SessionView { rows, cols, sent: Seq::empty() },
            ),
            r matches Err(e) ==> final(self)@ == old(self)@ && (e is AllocationFailure
                || e is SpawnFailure),
    {
        let (master, slave) = match pty::open_pty(rows, cols, 0, 0) {
            Ok(pair) => pair,
            Err(m) => {
                return Err(PtyError::AllocationFailure(m));
            },
        };
        let writer = match pty::take_writer(&master) {
            Ok(w) => w,
            Err(m) => {
                return Err(PtyError::AllocationFailure(m));
            },
        };
        let reader = match pty::clone_reader(&master) {
            Ok(rd) => rd,
            Err(m) => {
                return Err(PtyError::AllocationFailure(m));
            },
        };
        match pty::spawn_shell(&slave, SHELL_PROGRAM, TERM_KEY, TERM_VALUE) {
            Ok(()) => {},
            Err(m) => {
                return Err(PtyError::SpawnFailure(m));
            },
        }
        let session = Session { writer, reader, master, slave, rows, cols, sent: Ghost(Seq::empty()) };
        self.put_session(id.to_owned(), session);
        Ok(())
    }

    /// Deliver `data` to the shell under `id`: write every byte to the
    /// session's writer and force a flush so nothing lingers in userspace
    /// buffers. An unknown id is a successful no-op. On success the payload
    /// is appended, in order, to that session's delivered text and every
    /// other session is untouched; on failure the directory is unchanged
    /// (a prefix of the payload may still have reached the shell, which the
    /// delivered text deliberately does not count).
    pub fn write_to_pty(&mut self, id: &str, data: &str) -> (r: Result<(), PtyError>)
        ensures
            !old(self)@.dom().contains(id@) ==> final(self)@ == old(self)@ && r is Ok,
            old(self)@.dom().contains(id@) ==> match r {
                Ok(()) => final(self)@ == old(self)@.insert(
                    id@,
                    SessionView {
                        rows: old(self)@[id@].rows,
                        cols: old(self)@[id@].cols,
                        sent: old(self)@[id@].sent + data@,
                    },
                ),
                Err(e) => final(self)@ == old(self)@ && e is WriteFailure,
            },
    {
        proof {
            use_type_invariant(&*self);
        }
        let key: String = id.to_owned();
        let mut entries: Vec<Entry> = Vec::new();
        core::mem::swap(&mut entries, &mut self.entries);
        let ghost s0 = entries@;
        let mut result: Result<(), PtyError> = Ok(());
        match find_index(&entries, &key) {
            Some(i) => {
                proof {
                    lemma_view_at(s0, i as int);
                }
                let entry = &mut entries[i];
                match pty::write_all(&mut entry.session.writer, data) {
                    Ok(()) => {
                        match pty::flush(&mut entry.session.writer) {
                            Ok(()) => {
                                entry.session.sent = Ghost(entry.session.sent@ + data@);
                            },
                            Err(m) => {
                                result = Err(PtyError::WriteFailure(m));
                            },
                        }
                    },
                    Err(m) => {
                        result = Err(PtyError::WriteFailure(m));
                    },
                }
                proof {
                    lemma_view_update(s0, i as int, entries@[i as int]);
                    if result is Err {
                        assert(entries@[i as int].session.view() == s0[i as int].session.view());
                        assert(seq_view(entries@) =~= seq_view(s0));
                    }
                }
            },
            None => {
                proof {
                    lemma_view_absent(s0, key@);
                }
            },
        }
        self.entries = entries;
        result
    }

    /// One bounded, tolerant read from the shell under `id`: at most one OS
    /// read of at most 4096 bytes, decoded as UTF-8 with invalid sequences
    /// replaced — the result is exactly the lossy decoding of the one chunk
    /// read. An empty result means no data was currently available — it
    /// never means the session ended, and the caller is expected to poll
    /// again. An unknown id yields the empty result, and a read-time I/O
    /// error is swallowed and reported as empty too: this operation never
    /// fails outward, and it never changes the directory.
    ///
    /// The OS read waits for data: the master side's descriptor is blocking,
    /// so on a live session whose shell stays silent this call parks the
    /// calling thread until output or an error arrives. A host that must not
    /// block should poll from a thread it can afford to park.
    pub fn read_from_pty(&mut self, id: &str) -> (r: String)
        ensures
            final(self)@ == old(self)@,
            !old(self)@.dom().contains(id@) ==> r@ == Seq::<char>::empty(),
            r@ == Seq::<char>::empty() || (exists|bytes: Seq<u8>|
                bytes.len() <= 4096 && r@ == #[trigger] pty::utf8_lossy_decode(bytes)),
    {
        proof {
            use_type_invariant(&*self);
        }
        let key: String = id.to_owned();
        let mut entries: Vec<Entry> = Vec::new();
        core::mem::swap(&mut entries, &mut self.entries);
        let ghost s0 = entries@;
        let mut out = String::new();
        match find_index(&entries, &key) {
            Some(i) => {
                proof {
                    lemma_view_at(s0, i as int);
                }
                let entry = &mut entries[i];
                match pty::read_chunk(&mut entry.session.reader) {
                    Ok(bytes) => {
                        out = pty::utf8_lossy(&bytes);
                        proof {
                            assert(bytes@.len() <= 4096 && out@ == pty::utf8_lossy_decode(
                                bytes@,
                            ));
                        }
                    },
                    Err(_) => {},
                }
                proof {
                    lemma_view_update(s0, i as int, entries@[i as int]);
                    assert(entries@[i as int].session.view() == s0[i as int].session.view());
                    assert(seq_view(entries@) =~= seq_view(s0));
                }
            },
            None => {
                proof {
                    lemma_view_absent(s0, key@);
                }
            },
        }
        self.entries = entries;
        out
    }

    /// Change the geometry of the session under `id` to `rows` by `cols`
    /// (pixel sizing left at zero: character-cell sizing only). An unknown
    /// id is a successful no-op. On success only that session's recorded
    /// geometry changes; on failure the directory is unchanged. In-flight
    /// reads and writes are unaffected either way.
    pub fn resize_pty(&mut self, id: &str, rows: u16, cols: u16) -> (r: Result<(), PtyError>)
        ensures
            !old(self)@.dom().contains(id@) ==> final(self)@ == old(self)@ && r is Ok,
            old(self)@.dom().contains(id@) ==> match r {
                Ok(()) => final(self)@ == old(self)@.insert(
                    id@,
                    SessionView { rows, cols, sent: old(self)@[id@].sent },
                ),
                Err(e) => final(self)@ == old(self)@ && e is ResizeFailure,
            },
    {
        proof {
            use_type_invariant(&*self);
        }
        let key: String = id.to_owned();
        let mut entries: Vec<Entry> = Vec::new();
        core::mem::swap(&mut entries, &mut self.entries);
        let ghost s0 = entries@;
        let mut result: Result<(), PtyError> = Ok(());
        match find_index(&entries, &key) {
            Some(i) => {
                proof {
                    lemma_view_at(s0, i as int);
                }
                match pty::resize_handle(&entries[i].session.master, rows, cols, 0, 0) {
                    Ok(()) => {
                        let entry = &mut entries[i];
                        entry.session.rows = rows;
                        entry.session.cols = cols;
                        proof {
                            lemma_view_update(s0, i as int, entries@[i as int]);
                        }
                    },
                    Err(m) => {
                        result = Err(PtyError::ResizeFailure(m));
                    },
                }
            },
            None => {
                proof {
                    lemma_view_absent(s0, key@);
                }
            },
        }
        self.entries = entries;
        result
    }

    /// Remove the session under `id`, releasing its writer, reader, master
    /// and slave handles together; the OS reclaims the pty pair and hangs up
    /// the shell's controlling terminal. Closing an unknown id is a no-op,
    /// so a close is safe to repeat or to issue speculatively.
    pub fn close_shell(&mut self, id: &str)
        ensures
            final(self)@ == old(self)@.remove(id@),
    {
        proof {
            use_type_invariant(&*self);
        }
        let key: String = id.to_owned();
        let mut entries: Vec<Entry> = Vec::new();
        core::mem::swap(&mut entries, &mut self.entries);
        match find_index(&entries, &key) {
            Some(i) => {
                proof {
                    lemma_view_remove(entries@, i as int);
                }
                entries.remove(i);
            },
            None => {
                proof {
                    lemma_view_absent(entries@, key@);
                    assert(seq_view(entries@).remove(key@) =~= seq_view(entries@));
                }
            },
        }
        self.entries = entries;
    }
}

} // verus!
