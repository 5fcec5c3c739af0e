//! Decisions of the account operations that go through `user.service`: request
//! identifiers, the replies of the service, the transfer of a snapshot of the user
//! database in chunks, the home directory of a new user and the undoing of a failed add.
use vstd::prelude::*;

use crate::text::{chars_of, ranges_within, slices, split_bounds, split_on, string_of, texts};


verus! {

/// Why an account operation failed.
#[derive(Debug)]
pub enum AccountError {
    /// The request was refused before it was sent: its data are not acceptable.
    InvalidInput(String),
    /// The service answered with something the request does not account for.
    InvalidData(String),
    /// The operation is not available on this system.
    Unsupported(String),
    /// The service could not be found.
    NotFound(String),
    /// The service or the system reported the error number given.
    Os(i32),
}

/// The error of a reply that the request does not account for, described by `message`.
pub fn invalid_response(message: &str) -> (e: AccountError)
    ensures
        e matches AccountError::InvalidData(m) && m@ == message@,
{
    AccountError::InvalidData(String::from_str(message))
}

/// The error number that stands for an input/output error: `libc::EIO`. Its value depends
/// on the target (5 on Linux, negative on Haiku); what holds on every target is that it is
/// not 0, and no more is stated.
#[verifier::external_body]
fn io_error_number() -> (e: i32)
    ensures
        e != 0,
{
    libc::EIO
}

/// The error that a status reply of the service reports: the error number that the
/// negative status denotes, or `EIO` where the status has no negation in `i32`.
pub fn status_error(status: i32) -> (e: AccountError)
    ensures
        status != i32::MIN ==> e == AccountError::Os(-status as i32),
        status == i32::MIN ==> (e matches AccountError::Os(n) && n != 0),
{
    if status == i32::MIN {
        AccountError::Os(io_error_number())
    } else {
        AccountError::Os(-status)
    }
}

/// The identifiers of requests to the service, handed out in turn.
pub struct RequestIds {
    pub next: u64,
}

impl RequestIds {
    /// Identifiers handed out from 1.
    pub fn new() -> (ids: RequestIds)
        ensures
            ids.next == 1,
    {
        RequestIds { next: 1 }
    }
}

/// The next request identifier: the counter's value, never 0; the counter moves on by one,
/// wrapping at the end of `u64`.
pub fn next_request_id(ids: &mut RequestIds) -> (id: u64)
    ensures
        id == (if old(ids).next == 0 { 1 } else { old(ids).next }),
        final(ids).next == (if old(ids).next == u64::MAX { 0 } else { (old(ids).next + 1) as u64 }),
        forall|k: nat| #[trigger] request_ids_from(old(ids).next, k + 1) == seq![id].add(
            request_ids_from(final(ids).next, k),
        ),
{
    let id = ids.next;
    ids.next = ids.next.wrapping_add(1);
    if id == 0 {
        1
    } else {
        id
    }
}

/// The identifiers that `k` calls of `next_request_id` hand out, in order, starting from a
/// counter at `next`.
pub open spec fn request_ids_from(next: u64, k: nat) -> Seq<u64>
    decreases k,
{
    if k == 0 {
        seq![]
    } else {
        let id = if next == 0 { 1u64 } else { next };
        let after = if next == u64::MAX { 0u64 } else { (next + 1) as u64 };
        seq![id].add(request_ids_from(after, (k - 1) as nat))
    }
}

/// Request identifiers are never 0 and strictly increase over any number of calls, as long
/// as the counter, which starts at 1, does not wrap.
pub proof fn lemma_request_ids_increase(next: u64, k: nat)
    requires
        1 <= next,
        next + k <= u64::MAX + 1,
    ensures
        request_ids_from(next, k).len() == k,
        forall|i: int| 0 <= i < k ==> #[trigger] request_ids_from(next, k)[i] == next + i,
        forall|i: int, j: int| 0 <= i < j < k ==> request_ids_from(next, k)[i] < request_ids_from(next, k)[j],
        forall|i: int| 0 <= i < k ==> request_ids_from(next, k)[i] >= 1,
    decreases k,
{
    if k > 0 {
        let after = if next == u64::MAX { 0u64 } else { (next + 1) as u64 };
        if k > 1 {
            lemma_request_ids_increase(after, (k - 1) as nat);
        }
        let rest = request_ids_from(after, (k - 1) as nat);
        let all = request_ids_from(next, k);
        assert(all == seq![next].add(rest));
        assert forall|i: int| 0 <= i < k implies #[trigger] all[i] == next + i by {
            if i > 0 {
                assert(all[i] == rest[i - 1]);
            }
        }
    }
}

/// The outcome of a request that changes the user database, from the status reply of the
/// service: `request_id` is the identifier sent, `reply_id` and `status` those of the reply.
pub fn mutate(request_id: u64, reply_id: u64, status: i32) -> (r: Result<(), AccountError>)
    ensures
        reply_id != request_id ==> (r matches Err(AccountError::InvalidData(m)) && m@
            == "mutation request ID mismatch"@),
        reply_id == request_id && status == 0 ==> r is Ok,
        reply_id == request_id && status != 0 && status != i32::MIN ==> r == Err::<(), AccountError>(
            AccountError::Os(-status as i32),
        ),
        reply_id == request_id && status == i32::MIN ==> (r matches Err(AccountError::Os(n)) && n != 0),
{
    if reply_id != request_id {
        return Err(invalid_response("mutation request ID mismatch"));
    }
    if status == 0 {
        Ok(())
    } else {
        Err(status_error(status))
    }
}

/// The length of a reply from the value that the call returned: its low 32 bits, which
/// must not exceed the `capacity` of the reply buffer.
pub fn reply_length(result: u64, capacity: usize) -> (r: Result<usize, AccountError>)
    ensures
        (result % 0x1_0000_0000) <= capacity ==> r == Ok::<usize, AccountError>((result % 0x1_0000_0000) as usize),
        (result % 0x1_0000_0000) > capacity ==> (r matches Err(AccountError::InvalidData(m)) && m@
            == "invalid IPC reply length"@),
{
    let low = result & 0xffff_ffffu64;
    assert(result & 0xffff_ffffu64 == result % 0x1_0000_0000) by (bit_vector);
    if low > capacity as u64 {
        return Err(invalid_response("invalid IPC reply length"));
    }
    Ok(low as usize)
}

/// The largest user database that a snapshot may hold, in bytes.
pub const MAX_DATABASE_BYTES: usize = 1024 * 1024;

/// How many times a snapshot is attempted before the load gives up.
pub const SNAPSHOT_ATTEMPTS: u32 = 3;

/// The error number that stands for a failed allocation: `libc::ENOMEM`. Its value depends
/// on the target (12 on Linux, negative on Haiku); what holds on every target is that it is
/// not 0, and no more is stated.
#[verifier::external_body]
fn out_of_memory_number() -> (e: i32)
    ensures
        e != 0,
{
    libc::ENOMEM
}

/// Reserves room for `additional` more bytes in `v`, as `Vec::try_reserve_exact` does; tells
/// whether the allocation succeeded. The contents of `v` do not change either way.
#[verifier::external_body]
fn try_reserve_bytes(v: &mut Vec<u8>, additional: usize) -> (ok: bool)
    ensures
        final(v)@ == old(v)@,
{
    v.try_reserve_exact(additional).is_ok()
}

/// A snapshot of the user database being fetched chunk by chunk.
pub struct SnapshotTransfer {
    /// The identifier of the request that started the snapshot.
    pub request_id: u64,
    /// The length of the database, in bytes.
    pub total: usize,
    /// The generation of the database that the snapshot shows.
    pub generation: u64,
    /// The largest chunk to ask for.
    pub max_chunk: usize,
    /// The bytes received so far, in order.
    pub bytes: Vec<u8>,
    /// Whether a chunk that does not fit the snapshot was received, which ends the transfer.
    pub abandoned: bool,
}

impl SnapshotTransfer {
    /// What holds of a transfer at every step.
    pub open spec fn wf(&self) -> bool {
        &&& 0 < self.total <= MAX_DATABASE_BYTES
        &&& self.bytes@.len() <= self.total
        &&& self.abandoned ==> self.bytes@.len() == 0
    }

    /// Whether all the bytes of the database were received.
    pub open spec fn spec_complete(&self) -> bool {
        !self.abandoned && self.bytes@.len() == self.total
    }

    /// Whether a chunk with these fields is the next part of the snapshot.
    pub open spec fn fits(&self, reply_id: u64, offset: u64, generation: u64, len: nat) -> bool {
        &&& reply_id == self.request_id
        &&& offset == self.bytes@.len()
        &&& generation == self.generation
        &&& len <= self.total - self.bytes@.len()
    }
}

/// Starts the transfer of a snapshot from the reply that describes it: `reply_id`,
/// `total_len` and `generation` are those of the reply to the request `request_id`.
/// The reply must answer that request, and the database must hold at least one byte and
/// at most `MAX_DATABASE_BYTES`; room for it must be allocated.
pub fn start_snapshot(request_id: u64, reply_id: u64, total_len: u64, generation: u64, max_chunk: usize) -> (r:
    Result<SnapshotTransfer, AccountError>)
    ensures
        reply_id != request_id ==> (r matches Err(AccountError::InvalidData(m)) && m@
            == "snapshot request ID mismatch"@),
        reply_id == request_id && !(0 < total_len <= MAX_DATABASE_BYTES) ==> (r matches Err(
            AccountError::InvalidData(m),
        ) && m@ == "invalid snapshot length"@),
        r is Err && reply_id == request_id && 0 < total_len <= MAX_DATABASE_BYTES ==> (r matches Err(
            AccountError::Os(n),
        ) && n != 0),
        r matches Ok(t) ==> {
            &&& reply_id == request_id
            &&& 0 < total_len <= MAX_DATABASE_BYTES
            &&& t.wf()
            &&& t.request_id == request_id
            &&& t.total == total_len
            &&& t.generation == generation
            &&& t.max_chunk == max_chunk
            &&& t.bytes@.len() == 0
            &&& !t.abandoned
        },
{
    if reply_id != request_id {
        return Err(invalid_response("snapshot request ID mismatch"));
    }
    if !(total_len > 0 && total_len <= MAX_DATABASE_BYTES as u64) {
        return Err(invalid_response("invalid snapshot length"));
    }
    let total = total_len as usize;
    let mut bytes: Vec<u8> = Vec::new();
    if !try_reserve_bytes(&mut bytes, total) {
        return Err(AccountError::Os(out_of_memory_number()));
    }
    Ok(SnapshotTransfer { request_id, total, generation, max_chunk, bytes, abandoned: false })
}

impl SnapshotTransfer {
    /// The next chunk to ask for, as (offset, length): it starts where the bytes received
    /// end and asks for the rest of the database, at most `max_chunk` bytes of it.
    /// `None` once the database is complete or the transfer was abandoned.
    pub fn next_request(&self) -> (r: Option<(u64, u32)>)
        requires
            self.wf(),
        ensures
            (self.abandoned || self.bytes@.len() == self.total) ==> r is None,
            !(self.abandoned || self.bytes@.len() == self.total) ==> r == Some(
                (
                    self.bytes@.len() as u64,
                    (if self.total - self.bytes@.len() <= self.max_chunk {
                        self.total - self.bytes@.len()
                    } else {
                        self.max_chunk as int
                    }) as u32,
                ),
            ),
    {
        if self.abandoned || self.bytes.len() >= self.total {
            return None;
        }
        let remaining = self.total - self.bytes.len();
        let wanted = if remaining <= self.max_chunk {
            remaining
        } else {
            self.max_chunk
        };
        Some((self.bytes.len() as u64, wanted as u32))
    }

    /// Takes a chunk received in answer to the last request: `reply_id`, `offset` and
    /// `generation` are those of the reply. A chunk that answers the request, starts where
    /// the bytes received end, shows the same generation and does not go past the end of
    /// the database is appended; any other chunk abandons the transfer and drops the bytes
    /// received. Tells whether the chunk was appended.
    pub fn accept_chunk(&mut self, reply_id: u64, offset: u64, generation: u64, chunk: &[u8]) -> (appended: bool)
        requires
            old(self).wf(),
            !old(self).abandoned,
            old(self).bytes@.len() < old(self).total,
        ensures
            final(self).wf(),
            appended == old(self).fits(reply_id, offset, generation, chunk@.len()),
            appended ==> final(self).bytes@ == old(self).bytes@ + chunk@ && !final(self).abandoned,
            !appended ==> final(self).abandoned && final(self).bytes@.len() == 0,
            final(self).request_id == old(self).request_id,
            final(self).total == old(self).total,
            final(self).generation == old(self).generation,
            final(self).max_chunk == old(self).max_chunk,
    {
        let received = self.bytes.len();
        if reply_id != self.request_id || offset != received as u64 || generation != self.generation
            || chunk.len() > self.total - received {
            self.bytes.clear();
            self.abandoned = true;
            return false;
        }
        let mut i: usize = 0;
        while i < chunk.len()
            invariant
                i <= chunk@.len(),
                self.bytes@ == old(self).bytes@ + chunk@.subrange(0, i as int),
                self.request_id == old(self).request_id,
                self.total == old(self).total,
                self.generation == old(self).generation,
                self.max_chunk == old(self).max_chunk,
                self.abandoned == old(self).abandoned,
            decreases chunk.len() - i,
        {
            self.bytes.push(chunk[i]);
            assert(chunk@.subrange(0, i + 1) == chunk@.subrange(0, i as int).push(chunk@[i as int]));
            i = i + 1;
        }
        assert(chunk@.subrange(0, chunk@.len() as int) == chunk@);
        true
    }

    /// Whether all the bytes of the database were received.
    pub fn is_complete(&self) -> (b: bool)
        ensures
            b == self.spec_complete(),
    {
        !self.abandoned && self.bytes.len() == self.total
    }
}

/// The attempts at a snapshot of the user database.
pub struct SnapshotAttempts {
    pub made: u32,
}

impl SnapshotAttempts {
    /// No attempt made yet.
    pub fn new() -> (a: SnapshotAttempts)
        ensures
            a.made == 0,
    {
        SnapshotAttempts { made: 0 }
    }

    /// Whether another attempt may be made; counts it when so.
    pub fn try_again(&mut self) -> (more: bool)
        ensures
            more == (old(self).made < SNAPSHOT_ATTEMPTS),
            final(self).made == (if more { old(self).made + 1 } else { old(self).made as int }),
    {
        if self.made < SNAPSHOT_ATTEMPTS {
            self.made = self.made + 1;
            true
        } else {
            false
        }
    }
}

/// The error of a load whose snapshots all failed because the database kept changing.
pub fn snapshot_changed_error() -> (e: AccountError)
    ensures
        e matches AccountError::InvalidData(m) && m@ == "user database changed during snapshot"@,
{
    invalid_response("user database changed during snapshot")
}

/// The directories created in the home directory of a new user, in the order they are created.
pub open spec fn home_directory_names() -> Seq<Seq<char>> {
    seq!["Desktop"@, "Documents"@, "Downloads"@, "Movies"@, "Music"@, "Pictures"@]
}

/// The path `base` followed by the relative path `name`, as `Path::join` gives it: a
/// separator is put between them unless `base` is empty or already ends with one.
pub open spec fn join_path(base: Seq<char>, name: Seq<char>) -> Seq<char> {
    if base.len() == 0 || base.last() == '/' {
        base + name
    } else {
        base + "/"@ + name
    }
}

/// `base` joined with the relative path `name`.
fn join(base: &str, name: &str) -> (path: String)
    ensures
        path@ == join_path(base@, name@),
{
    let b = crate::text::chars_of(base);
    let mut path = String::from_str(base);
    if !(b.len() == 0 || b[b.len() - 1] == '/') {
        path.append("/");
    }
    path.append(name);
    path
}

/// Whether the piece `p` of a path, between two slashes, is one of its components: pieces
/// that are empty or `.` are not.
pub open spec fn is_path_component(p: Seq<char>) -> bool {
    p.len() > 0 && p != "."@
}

/// The components among the pieces `ps` of a path, in order.
pub open spec fn components_of(ps: Seq<Seq<char>>) -> Seq<Seq<char>>
    decreases ps.len(),
{
    if ps.len() == 0 {
        seq![]
    } else if is_path_component(ps.last()) {
        components_of(ps.drop_last()).push(ps.last())
    } else {
        components_of(ps.drop_last())
    }
}

/// The components of the path `s` after its root, as `Path::components` gives them for an
/// absolute path: repeated and final slashes and `.` pieces are left out.
pub open spec fn path_components(s: Seq<char>) -> Seq<Seq<char>> {
    components_of(split_on(s, '/'))
}

/// Whether the path `s` is absolute: it starts with a slash.
pub open spec fn is_absolute_path(s: Seq<char>) -> bool {
    s.len() > 0 && s[0] == '/'
}

/// The path `/home` joined with `name`, as `Path::join` gives it: `name` itself when it is
/// absolute.
pub open spec fn home_path(name: Seq<char>) -> Seq<char> {
    if is_absolute_path(name) {
        name
    } else {
        join_path("/home"@, name)
    }
}

/// The components of the path `s`.
fn components(s: &str) -> (r: Vec<String>)
    ensures
        texts(r@) == path_components(s@),
{
    let v = chars_of(s);
    assert(v@.subrange(0, v@.len() as int) == v@);
    let ps = split_bounds(&v, 0, v.len(), '/');
    let ghost all = split_on(s@, '/');
    let mut r: Vec<String> = Vec::new();
    let mut k: usize = 0;
    while k < ps.len()
        invariant
            v@ == s@,
            all == split_on(s@, '/'),
            slices(v@, ps@) == all,
            ranges_within(ps@, 0, v@.len() as int),
            k <= ps.len(),
            texts(r@) == components_of(all.take(k as int)),
        decreases ps.len() - k,
    {
        let (a, b) = ps[k];
        assert(ps@[k as int] == (a, b));
        assert(all[k as int] == v@.subrange(a as int, b as int));
        assert(all.take(k + 1).drop_last() == all.take(k as int));
        assert(all.take(k + 1).last() == all[k as int]);
        proof {
            reveal_strlit(".");
        }
        if b > a && !crate::values::range_is(&v, a, b, ".") {
            let piece = string_of(&v, a, b);
            let ghost prev = r@;
            r.push(piece);
            assert(texts(r@) == texts(prev).push(piece@));
        }
        k = k + 1;
    }
    assert(all.take(ps.len() as int) == all);
    r
}

/// Whether the texts of `a` and `b` are the same, in order.
fn same_texts(a: &Vec<String>, b: &Vec<String>) -> (r: bool)
    ensures
        r == (texts(a@) == texts(b@)),
{
    if a.len() != b.len() {
        assert(texts(a@).len() != texts(b@).len());
        return false;
    }
    let mut i: usize = 0;
    while i < a.len()
        invariant
            a@.len() == b@.len(),
            i <= a@.len(),
            forall|k: int| 0 <= k < i ==> texts(a@)[k] == texts(b@)[k],
        decreases a.len() - i,
    {
        if !crate::values::text_is(a[i].as_str(), b[i].as_str()) {
            assert(texts(a@)[i as int] != texts(b@)[i as int]);
            return false;
        }
        i = i + 1;
    }
    assert(texts(a@) =~= texts(b@));
    true
}

/// Whether `home` is the managed home directory of the user `name`, as paths compare:
/// `home` is absolute and has the components of `/home` joined with `name`.
pub fn managed_home_valid(home: &str, name: &str) -> (b: bool)
    ensures
        b == (is_absolute_path(home@) && path_components(home@) == path_components(home_path(name@))),
{
    let hv = chars_of(home);
    if !(hv.len() > 0 && hv[0] == '/') {
        return false;
    }
    let nv = chars_of(name);
    let expected = if nv.len() > 0 && nv[0] == '/' {
        String::from_str(name)
    } else {
        join("/home", name)
    };
    assert(expected@ == home_path(name@));
    same_texts(&components(home), &components(expected.as_str()))
}

/// The directories of the home directory `home` that a new user gets, in the order they are created.
pub fn home_directories(home: &str) -> (dirs: Vec<String>)
    ensures
        dirs@.len() == home_directory_names().len(),
        forall|i: int| 0 <= i < dirs@.len() ==> (#[trigger] dirs@[i])@ == join_path(home@, home_directory_names()[i]),
{
    let names = vec!["Desktop", "Documents", "Downloads", "Movies", "Music", "Pictures"];
    let mut dirs: Vec<String> = Vec::new();
    let mut i: usize = 0;
    while i < names.len()
        invariant
            names@.map_values(|n: &str| n@) == home_directory_names(),
            i <= names@.len(),
            dirs@.len() == i,
            forall|k: int| 0 <= k < i ==> (#[trigger] dirs@[k])@ == join_path(home@, home_directory_names()[k]),
        decreases names.len() - i,
    {
        assert(names@.map_values(|n: &str| n@)[i as int] == names@[i as int]@);
        dirs.push(join(home, names[i]));
        i = i + 1;
    }
    dirs
}

/// The directories removed when the creation of the home directory `home` is undone, in
/// order: those inside it, last created first, then the home directory itself.
pub fn rollback_paths(home: &str) -> (paths: Vec<String>)
    ensures
        paths@.len() == home_directory_names().len() + 1,
        forall|i: int| 0 <= i < home_directory_names().len() ==> (#[trigger] paths@[i])@ == join_path(
            home@,
            home_directory_names()[home_directory_names().len() - 1 - i],
        ),
        paths@[home_directory_names().len() as int]@ == home@,
{
    let dirs = home_directories(home);
    let mut paths: Vec<String> = Vec::new();
    let mut i: usize = dirs.len();
    while i > 0
        invariant
            i <= dirs@.len(),
            dirs@.len() == home_directory_names().len(),
            forall|k: int| 0 <= k < dirs@.len() ==> (#[trigger] dirs@[k])@ == join_path(home@, home_directory_names()[k]),
            paths@.len() == dirs@.len() - i,
            forall|k: int| 0 <= k < paths@.len() ==> (#[trigger] paths@[k])@ == join_path(
                home@,
                home_directory_names()[home_directory_names().len() - 1 - k],
            ),
        decreases i,
    {
        i = i - 1;
        paths.push(dirs[i].clone());
    }
    paths.push(String::from_str(home));
    paths
}

/// A step of adding a user, which the caller performs and reports on.
#[derive(Clone, Copy, Debug, PartialEq, Eq)]
pub enum AddUserAction {
    /// Create the home directory and the directories in it.
    CreateHome,
    /// Ask the service to register the user.
    Register,
    /// Ask the service to set the password of the user.
    SetPassword,
    /// Ask the service to remove the user again; its failure is not reported.
    RemoveUser,
    /// Remove the directories of the home directory; failures are ignored.
    RollbackHome,
    /// Nothing more to do: the user was added, or adding failed with the error of the
    /// last step whose failure is reported.
    Finish(bool),
}

/// Adding a user in progress: the step it waits to hear about.
#[derive(Clone, Copy, Debug, PartialEq, Eq)]
pub struct AddUser {
    pub action: AddUserAction,
}

/// The step that follows `a` when it went as `ok` says.
pub open spec fn next_add_step(a: AddUserAction, ok: bool) -> AddUserAction {
    match a {
        AddUserAction::CreateHome => if ok { AddUserAction::Register } else { AddUserAction::Finish(false) },
        AddUserAction::Register => if ok { AddUserAction::SetPassword } else { AddUserAction::RollbackHome },
        AddUserAction::SetPassword => if ok { AddUserAction::Finish(true) } else { AddUserAction::RemoveUser },
        AddUserAction::RemoveUser => if ok { AddUserAction::RollbackHome } else { AddUserAction::Finish(false) },
        AddUserAction::RollbackHome => AddUserAction::Finish(false),
        AddUserAction::Finish(done) => AddUserAction::Finish(done),
    }
}

impl AddUser {
    /// Adding a user starts with the creation of its home directory.
    pub fn new() -> (a: AddUser)
        ensures
            a.action == AddUserAction::CreateHome,
    {
        AddUser { action: AddUserAction::CreateHome }
    }

    /// Hears how the pending step went and returns the next one.
    pub fn advance(&mut self, ok: bool) -> (next: AddUserAction)
        ensures
            final(self).action == next_add_step(old(self).action, ok),
            next == final(self).action,
    {
        self.action = match self.action {
            AddUserAction::CreateHome => if ok { AddUserAction::Register } else { AddUserAction::Finish(false) },
            AddUserAction::Register => if ok { AddUserAction::SetPassword } else { AddUserAction::RollbackHome },
            AddUserAction::SetPassword => if ok { AddUserAction::Finish(true) } else { AddUserAction::RemoveUser },
            AddUserAction::RemoveUser => if ok { AddUserAction::RollbackHome } else { AddUserAction::Finish(false) },
            AddUserAction::RollbackHome => AddUserAction::Finish(false),
            AddUserAction::Finish(done) => AddUserAction::Finish(done),
        };
        self.action
    }
}

/// Whether the home directory of the new user exists and whether the service knows the user.
pub struct AccountState {
    pub home: bool,
    pub registered: bool,
}

/// Whether `ok` truly reports the step `a`, which turns `s` into `t`. A home directory
/// whose creation fails is removed again by that step, and undoing a home directory
/// removes it.
pub open spec fn add_step_effect(s: AccountState, a: AddUserAction, ok: bool, t: AccountState) -> bool {
    match a {
        AddUserAction::CreateHome => t == AccountState { home: ok, ..s },
        AddUserAction::Register => t == AccountState { registered: s.registered || ok, ..s },
        AddUserAction::SetPassword => t == s,
        AddUserAction::RemoveUser => t == AccountState { registered: s.registered && !ok, ..s },
        AddUserAction::RollbackHome => t == AccountState { home: false, ..s },
        AddUserAction::Finish(_) => t == s,
    }
}

/// What holds while a user is being added, starting without home directory or registration.
pub open spec fn add_invariant(a: AddUserAction, s: AccountState) -> bool {
    match a {
        AddUserAction::CreateHome => !s.home && !s.registered,
        AddUserAction::Register => s.home && !s.registered,
        AddUserAction::SetPassword | AddUserAction::RemoveUser => s.home && s.registered,
        AddUserAction::RollbackHome => s.home && !s.registered,
        AddUserAction::Finish(done) => if done {
            s.home && s.registered
        } else {
            s.home ==> s.registered
        },
    }
}

/// Adding a user that fails leaves no home directory behind unless the user stays
/// registered (when removing it again failed); adding a user that succeeds leaves the
/// user registered with a home directory.
pub proof fn lemma_add_user_cleans_up(a: AddUserAction, s: AccountState, ok: bool, t: AccountState)
    requires
        add_invariant(a, s),
        add_step_effect(s, a, ok, t),
    ensures
        add_invariant(next_add_step(a, ok), t),
        next_add_step(a, ok) == AddUserAction::Finish(false) ==> (t.home ==> t.registered),
        next_add_step(a, ok) == AddUserAction::Finish(true) ==> t.home && t.registered,
{
}

} // verus!
