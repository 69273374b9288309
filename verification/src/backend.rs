//! The permission-scoped entry store: path-addressed entries with
//! owner, public flag and grant lists, namespace resolution, and the
//! authorized create, remove, move, grant and query operations.
use vstd::prelude::*;

use crate::msg::{ContractError, Env, FileResponse, HandleAnswer, HandleResponse,
    WalletInfoResponse};
use crate::numstr::{dec_digits, dec_string};
use crate::ordered_set::OrderedSet;
use crate::state::{write_viewing_key, State};
use crate::store::{full_namespace, wallet_record_wf, Store, StoreV};
use crate::viewing_key::ViewingKey;

verus! {

use vstd::string::StringExecFns;
use vstd::string::StrSliceExecFns;

#[derive(Debug)]
enum PermType {
    Read,
    Write,
}

#[derive(Debug)]
#[allow(dead_code)]
pub struct PermissionBlock {
    address: String,
    permission_type: PermType,
}

/// One record per account: whether it is active, its file namespace,
/// and the generation counters behind the file namespace and the
/// mailbox namespace.
#[derive(Debug)]
pub struct WalletInfo {
    pub init: bool,
    pub namespace: String,
    pub counter: i32,
    pub message_list_counter: i32,
}

pub struct WalletInfoV {
    pub init: bool,
    pub namespace: Seq<char>,
    pub counter: int,
    pub message_list_counter: int,
}

impl View for WalletInfo {
    type V = WalletInfoV;

    open spec fn view(&self) -> WalletInfoV {
        WalletInfoV {
            init: self.init,
            namespace: self.namespace@,
            counter: self.counter as int,
            message_list_counter: self.message_list_counter as int,
        }
    }
}

impl DeepView for WalletInfo {
    type V = WalletInfoV;

    open spec fn deep_view(&self) -> WalletInfoV {
        self.view()
    }
}

impl Clone for WalletInfo {
    fn clone(&self) -> (r: Self)
        ensures
            r@ == self@,
    {
        WalletInfo {
            init: self.init,
            namespace: self.namespace.clone(),
            counter: self.counter,
            message_list_counter: self.message_list_counter,
        }
    }
}

/// The default record for an account that was never initialized.
pub open spec fn default_wallet() -> WalletInfoV {
    WalletInfoV { init: false, namespace: "empty"@, counter: 0, message_list_counter: 0 }
}

/// Unwraps a loaded record, falling back to the default for an account
/// that was never initialized.
pub fn return_wallet(x: Option<WalletInfo>) -> (r: WalletInfo)
    ensures
        match x {
            Some(w) => r@ == w@,
            None => r@ == default_wallet(),
        },
{
    match x {
        Some(i) => i,
        None => WalletInfo {
            init: false,
            namespace: "empty".to_owned(),
            counter: 0,
            message_list_counter: 0,
        },
    }
}

/// A file- or folder-like entry: contents, owner, a public flag, and the
/// two grant lists.
#[derive(Debug, PartialEq)]
pub struct File {
    contents: String,
    owner: String,
    public: bool,
    allow_read_list: OrderedSet,
    allow_write_list: OrderedSet,
}

pub struct FileV {
    pub contents: Seq<char>,
    pub owner: Seq<char>,
    pub public: bool,
    pub allow_read_list: Seq<Seq<char>>,
    pub allow_write_list: Seq<Seq<char>>,
}

impl View for File {
    type V = FileV;

    closed spec fn view(&self) -> FileV {
        FileV {
            contents: self.contents@,
            owner: self.owner@,
            public: self.public,
            allow_read_list: self.allow_read_list@,
            allow_write_list: self.allow_write_list@,
        }
    }
}

impl DeepView for File {
    type V = FileV;

    open spec fn deep_view(&self) -> FileV {
        self.view()
    }
}

impl Clone for File {
    fn clone(&self) -> (r: Self)
        ensures
            r@ == self@,
    {
        File {
            contents: self.contents.clone(),
            owner: self.owner.clone(),
            public: self.public,
            allow_read_list: self.allow_read_list.clone(),
            allow_write_list: self.allow_write_list.clone(),
        }
    }
}

/// Read capability: the owner, anyone on a public entry, and every
/// account on either grant list (write implies read).
pub open spec fn can_read_of(f: FileV, addr: Seq<char>) -> bool {
    ||| f.owner == addr
    ||| f.public
    ||| f.allow_read_list.contains(addr)
    ||| f.allow_write_list.contains(addr)
}

/// Write capability: the owner and every account on the write list.
pub open spec fn can_write_of(f: FileV, addr: Seq<char>) -> bool {
    ||| f.owner == addr
    ||| f.allow_write_list.contains(addr)
}

/// Adding a grant is idempotent: a present address is left alone.
pub open spec fn push_grant(s: Seq<Seq<char>>, a: Seq<char>) -> Seq<Seq<char>> {
    if s.contains(a) {
        s
    } else {
        s.push(a)
    }
}

/// No address occurs twice in either grant list.
pub open spec fn file_wf(f: FileV) -> bool {
    &&& forall|i: int, j: int|
        0 <= i < j < f.allow_read_list.len() ==> f.allow_read_list[i] != f.allow_read_list[j]
    &&& forall|i: int, j: int|
        0 <= i < j < f.allow_write_list.len() ==> f.allow_write_list[i] != f.allow_write_list[j]
}

proof fn lemma_wf_to_lists(f: File)
    requires
        file_wf(f@),
    ensures
        f.allow_read_list.wf(),
        f.allow_write_list.wf(),
{
    assert forall|i: int, j: int|
        0 <= i < j < f.allow_read_list@.len() implies f.allow_read_list@[i]
        != f.allow_read_list@[j] by {
        assert(f@.allow_read_list[i] != f@.allow_read_list[j]);
    }
    assert forall|i: int, j: int|
        0 <= i < j < f.allow_write_list@.len() implies f.allow_write_list@[i]
        != f.allow_write_list@[j] by {
        assert(f@.allow_write_list[i] != f@.allow_write_list[j]);
    }
}

proof fn lemma_lists_to_wf(f: File)
    requires
        f.allow_read_list.wf(),
        f.allow_write_list.wf(),
    ensures
        file_wf(f@),
{
    assert forall|i: int, j: int|
        0 <= i < j < f@.allow_read_list.len() implies f@.allow_read_list[i]
        != f@.allow_read_list[j] by {
        assert(f.allow_read_list@[i] != f.allow_read_list@[j]);
    }
    assert forall|i: int, j: int|
        0 <= i < j < f@.allow_write_list.len() implies f@.allow_write_list[i]
        != f@.allow_write_list[j] by {
        assert(f.allow_write_list@[i] != f.allow_write_list@[j]);
    }
}

impl File {
    pub open spec fn wf(&self) -> bool {
        file_wf(self@)
    }

    pub fn new(owner: &str, contents: &str) -> (r: File)
        ensures
            r@ == new_file(owner@, contents@),
            r.wf(),
    {
        make_file(owner, contents)
    }

    pub fn get_contents(&self) -> (r: &str)
        ensures
            r@ == self@.contents,
    {
        self.contents.as_str()
    }

    pub fn can_read(&self, address: String) -> (r: bool)
        ensures
            r == can_read_of(self@, address@),
    {
        if self.owner.eq(&address) {
            return true;
        }
        if self.public {
            return true;
        }
        let nr = self.allow_read_list.len();
        let mut i: usize = 0;
        while i < nr
            invariant
                nr == self@.allow_read_list.len(),
                i <= nr,
                forall|j: int| 0 <= j < i as int ==> self@.allow_read_list[j] != address@,
            decreases nr - i,
        {
            match self.allow_read_list.get(i) {
                Some(s) => {
                    if s.eq(&address) {
                        return true;
                    }
                },
                None => {},
            }
            i += 1;
        }
        let nw = self.allow_write_list.len();
        let mut i: usize = 0;
        while i < nw
            invariant
                nw == self@.allow_write_list.len(),
                i <= nw,
                forall|j: int| 0 <= j < i as int ==> self@.allow_write_list[j] != address@,
            decreases nw - i,
        {
            match self.allow_write_list.get(i) {
                Some(s) => {
                    if s.eq(&address) {
                        return true;
                    }
                },
                None => {},
            }
            i += 1;
        }
        false
    }

    pub fn can_write(&self, address: String) -> (r: bool)
        ensures
            r == can_write_of(self@, address@),
    {
        if self.owner.eq(&address) {
            return true;
        }
        let nw = self.allow_write_list.len();
        let mut i: usize = 0;
        while i < nw
            invariant
                nw == self@.allow_write_list.len(),
                i <= nw,
                forall|j: int| 0 <= j < i as int ==> self@.allow_write_list[j] != address@,
            decreases nw - i,
        {
            match self.allow_write_list.get(i) {
                Some(s) => {
                    if s.eq(&address) {
                        return true;
                    }
                },
                None => {},
            }
            i += 1;
        }
        false
    }

    pub fn allow_read(&mut self, address: String) -> (r: bool)
        requires
            old(self).wf(),
        ensures
            final(self).wf(),
            r == (old(self)@.owner != address@),
            final(self)@ == (if old(self)@.owner == address@ {
                old(self)@
            } else {
                FileV {
                    allow_read_list: push_grant(old(self)@.allow_read_list, address@),
                    ..old(self)@
                }
            }),
    {
        if self.owner.eq(&address) {
            return false;
        }
        proof {
            lemma_wf_to_lists(*self);
        }
        self.allow_read_list.push(address);
        proof {
            lemma_lists_to_wf(*self);
        }
        true
    }

    pub fn allow_write(&mut self, address: String) -> (r: bool)
        requires
            old(self).wf(),
        ensures
            final(self).wf(),
            r == (old(self)@.owner != address@),
            final(self)@ == (if old(self)@.owner == address@ {
                old(self)@
            } else {
                FileV {
                    allow_write_list: push_grant(old(self)@.allow_write_list, address@),
                    ..old(self)@
                }
            }),
    {
        if self.owner.eq(&address) {
            return false;
        }
        proof {
            lemma_wf_to_lists(*self);
        }
        self.allow_write_list.push(address);
        proof {
            lemma_lists_to_wf(*self);
        }
        true
    }

    pub fn disallow_read(&mut self, address: String) -> (r: bool)
        requires
            old(self).wf(),
        ensures
            final(self).wf(),
            r == (old(self)@.owner != address@),
            final(self)@ == (if old(self)@.owner == address@ {
                old(self)@
            } else {
                FileV {
                    allow_read_list: old(self)@.allow_read_list.remove_value(address@),
                    ..old(self)@
                }
            }),
    {
        if self.owner.eq(&address) {
            return false;
        }
        proof {
            lemma_wf_to_lists(*self);
        }
        self.allow_read_list.remove(address);
        proof {
            lemma_lists_to_wf(*self);
        }
        true
    }

    pub fn disallow_write(&mut self, address: String) -> (r: bool)
        requires
            old(self).wf(),
        ensures
            final(self).wf(),
            r == (old(self)@.owner != address@),
            final(self)@ == (if old(self)@.owner == address@ {
                old(self)@
            } else {
                FileV {
                    allow_write_list: old(self)@.allow_write_list.remove_value(address@),
                    ..old(self)@
                }
            }),
    {
        if self.owner.eq(&address) {
            return false;
        }
        proof {
            lemma_wf_to_lists(*self);
        }
        self.allow_write_list.remove(address);
        proof {
            lemma_lists_to_wf(*self);
        }
        true
    }

    pub fn make_public(&mut self) -> (r: bool)
        ensures
            final(self)@ == (FileV { public: true, ..old(self)@ }),
            r == true,
    {
        self.public = true;
        true
    }

    pub fn make_private(&mut self) -> (r: bool)
        ensures
            final(self)@ == (FileV { public: false, ..old(self)@ }),
            r == true,
    {
        self.public = false;
        true
    }

    pub fn is_public(&self) -> (r: bool)
        ensures
            r == self@.public,
    {
        self.public
    }

    pub fn change_owner(&mut self, new_owner: String)
        ensures
            final(self)@ == (FileV { owner: new_owner@, ..old(self)@ }),
    {
        self.owner = new_owner;
    }
}

/// A freshly created entry: private, with empty grant lists.
pub open spec fn new_file(owner: Seq<char>, contents: Seq<char>) -> FileV {
    FileV {
        contents,
        owner,
        public: false,
        allow_read_list: Seq::empty(),
        allow_write_list: Seq::empty(),
    }
}

pub fn make_file(owner: &str, contents: &str) -> (r: File)
    ensures
        r@ == new_file(owner@, contents@),
        r.wf(),
{
    File {
        contents: contents.to_owned(),
        owner: owner.to_owned(),
        public: false,
        allow_read_list: OrderedSet::new(),
        allow_write_list: OrderedSet::new(),
    }
}

/// The path with one trailing separator removed, if it carries one.
pub open spec fn trimmed(p: Seq<char>) -> Seq<char> {
    if p.len() > 0 && p.last() == '/' {
        p.drop_last()
    } else {
        p
    }
}

/// The prefix of a trimmed path up to and including its last separator;
/// empty when no separator occurs.
pub open spec fn parent_of_trimmed(s: Seq<char>) -> Seq<char>
    decreases s.len(),
{
    if s.len() == 0 {
        Seq::empty()
    } else if s.last() == '/' {
        s
    } else {
        parent_of_trimmed(s.drop_last())
    }
}

/// The parent path: the final segment removed, any trailing separator
/// first dropped.
pub open spec fn parent_path_of(p: Seq<char>) -> Seq<char> {
    parent_of_trimmed(trimmed(p))
}

proof fn lemma_parent_scan(s: Seq<char>, j: int)
    requires
        0 <= j < s.len(),
        s[j] == '/',
        forall|k: int| j < k < s.len() ==> s[k] != '/',
    ensures
        parent_of_trimmed(s) == s.take(j + 1),
    decreases s.len(),
{
    if j == s.len() - 1 {
        assert(s.take(j + 1) =~= s);
    } else {
        assert(s.last() != '/');
        lemma_parent_scan(s.drop_last(), j);
        assert(s.drop_last().take(j + 1) =~= s.take(j + 1));
    }
}

proof fn lemma_parent_no_slash(s: Seq<char>)
    requires
        forall|k: int| 0 <= k < s.len() ==> s[k] != '/',
    ensures
        parent_of_trimmed(s) == Seq::<char>::empty(),
    decreases s.len(),
{
    if s.len() > 0 {
        lemma_parent_no_slash(s.drop_last());
    }
}

/// Strips the final segment from a path.
pub fn parent_path(path: String) -> (r: String)
    ensures
        r@ == parent_path_of(path@),
{
    let p = path.as_str();
    let plen = p.unicode_len();
    let t: &str = if plen > 0 && p.get_char(plen - 1) == '/' {
        p.substring_char(0, plen - 1)
    } else {
        p
    };
    proof {
        assert(t@ =~= trimmed(path@));
    }
    let tlen = t.unicode_len();
    let mut i: usize = tlen;
    while i > 0
        invariant
            t@ == trimmed(path@),
            tlen == t@.len(),
            i <= tlen,
            forall|k: int| i as int <= k < tlen as int ==> t@[k] != '/',
        decreases i,
    {
        if t.get_char(i - 1) == '/' {
            let r = t.substring_char(0, i).to_owned();
            proof {
                lemma_parent_scan(t@, i as int - 1);
                assert(r@ =~= t@.take(i as int));
            }
            return r;
        }
        i -= 1;
    }
    proof {
        lemma_parent_no_slash(t@);
    }
    String::new()
}

/// The leading segment of a path: everything before the first
/// separator, or the whole path if none occurs.
pub open spec fn first_segment_of(p: Seq<char>) -> Seq<char>
    decreases p.len(),
{
    if p.len() == 0 {
        Seq::empty()
    } else if p.first() == '/' {
        Seq::empty()
    } else {
        seq![p.first()] + first_segment_of(p.drop_first())
    }
}

proof fn lemma_first_segment_scan(p: Seq<char>, i: int)
    requires
        0 <= i <= p.len(),
        forall|k: int| 0 <= k < i ==> p[k] != '/',
        i < p.len() ==> p[i] == '/',
    ensures
        first_segment_of(p) == p.take(i),
    decreases p.len(),
{
    if p.len() == 0 {
        assert(p.take(i) =~= Seq::<char>::empty());
    } else if p.first() == '/' {
        assert(i == 0);
        assert(p.take(0) =~= Seq::<char>::empty());
    } else {
        assert(i >= 1);
        lemma_first_segment_scan(p.drop_first(), i - 1);
        assert(first_segment_of(p) == seq![p.first()] + p.drop_first().take(i - 1));
        assert(seq![p.first()] + p.drop_first().take(i - 1) =~= p.take(i));
    }
}

/// The leading segment of a path, which names the account whose
/// namespace the path addresses.
pub fn first_segment(path: &str) -> (r: String)
    ensures
        r@ == first_segment_of(path@),
{
    let n = path.unicode_len();
    let mut i: usize = 0;
    while i < n
        invariant
            n == path@.len(),
            i <= n,
            forall|k: int| 0 <= k < i as int ==> path@[k] != '/',
        decreases n - i,
    {
        if path.get_char(i) == '/' {
            let r = path.substring_char(0, i).to_owned();
            proof {
                lemma_first_segment_scan(path@, i as int);
                assert(r@ =~= path@.take(i as int));
            }
            return r;
        }
        i += 1;
    }
    proof {
        lemma_first_segment_scan(path@, n as int);
        assert(path@.take(n as int) =~= path@);
    }
    path.to_owned()
}

/// The fallback namespace text used when a path's leading account has
/// no record, on the creation and grant paths.
pub open spec fn fb_not_exist() -> Seq<char> {
    "namespace does not exist!"@
}

/// The fallback namespace text used when a path's leading account has
/// no record, on the move, query and ownership paths.
pub open spec fn fb_not_found() -> Seq<char> {
    "namespace not found!"@
}

/// The namespace a path resolves to: the namespace of the account named
/// by its leading segment, or the fallback text when that account has
/// no record.
pub open spec fn ns_of_path(s: StoreV, path: Seq<char>, fb: Seq<char>) -> Seq<char> {
    let owner = first_segment_of(path);
    if s.wallets.contains_key(owner) {
        full_namespace(owner, s.wallets[owner].counter)
    } else {
        fb
    }
}

/// The recorded namespace of an account.
pub fn get_namespace(store: &Store, sender: &String) -> (r: Result<String, ContractError>)
    requires
        store.wf(),
    ensures
        match r {
            Ok(ns) => store@.wallets.contains_key(sender@) && ns@ == store@.wallets[
                sender@
            ].namespace,
            Err(e) => !store@.wallets.contains_key(sender@) && e is NotFound,
        },
{
    match store.wallets.get(sender) {
        Some(w) => Ok(w.namespace.clone()),
        None => Err(ContractError::NotFound { kind: "WalletInfo".to_owned() }),
    }
}

/// The file generation counter of an account.
pub fn get_counter(store: &Store, sender: &String) -> (r: Result<i32, ContractError>)
    requires
        store.wf(),
    ensures
        match r {
            Ok(c) => store@.wallets.contains_key(sender@) && c as int == store@.wallets[
                sender@
            ].counter,
            Err(e) => !store@.wallets.contains_key(sender@) && e is NotFound,
        },
{
    match store.wallets.get(sender) {
        Some(w) => Ok(w.counter),
        None => Err(ContractError::NotFound { kind: "WalletInfo".to_owned() }),
    }
}

/// Resolves the namespace of the account named by a path's leading
/// segment, so that grants and ownership transfers keep working on an
/// entry whose owner is not the account the path sits under.
pub fn get_namespace_from_path(store: &Store, path: String) -> (r: Result<String, ContractError>)
    requires
        store.wf(),
    ensures
        ({
            let owner = first_segment_of(path@);
            match r {
                Ok(ns) => store@.wallets.contains_key(owner) && ns@ == full_namespace(
                    owner,
                    store@.wallets[owner].counter,
                ),
                Err(e) => !store@.wallets.contains_key(owner) && e is NotFound,
            }
        }),
{
    let namespace_owner = first_segment(path.as_str());
    let counter = get_counter(store, &namespace_owner)?;
    proof {
        assert(store@.wallets.contains_key(namespace_owner@));
        assert(counter >= 0);
    }
    let mut full_ns = namespace_owner;
    full_ns.append(dec_string(counter as u64).as_str());
    Ok(full_ns)
}

/// The namespace a path resolves to, with the caller's fallback text
/// standing in for a missing account record.
fn effective_namespace(store: &Store, path: &String, fallback: &str) -> (r: String)
    requires
        store.wf(),
    ensures
        r@ == ns_of_path(store@, path@, fallback@),
{
    match get_namespace_from_path(store, path.clone()) {
        Ok(ns) => ns,
        Err(_) => fallback.to_owned(),
    }
}

/// Writes an entry at a path under a namespace.
pub fn bucket_save_file(store: &mut Store, path: &String, folder: File, namespace: &String)
    requires
        old(store).wf(),
        folder.wf(),
    ensures
        final(store).wf(),
        final(store)@ == (StoreV {
            files: old(store)@.files.insert((namespace@, path@), folder@),
            ..old(store)@
        }),
{
    store.files.insert(namespace.clone(), path.clone(), folder);
}

/// Deletes the entry at a path under a namespace; an absent path is a
/// no-op.
pub fn bucket_remove_file(store: &mut Store, path: &String, namespace: &String)
    requires
        old(store).wf(),
    ensures
        final(store).wf(),
        final(store)@ == (StoreV {
            files: old(store)@.files.remove((namespace@, path@)),
            ..old(store)@
        }),
{
    store.files.remove(namespace, path);
}

/// Whether an entry sits at a path under a namespace.
pub fn file_exists(store: &mut Store, path: &String, namespace: &String) -> (r: bool)
    requires
        old(store).wf(),
    ensures
        *final(store) == *old(store),
        r == old(store)@.files.contains_key((namespace@, path@)),
{
    store.files.contains_key(namespace, path)
}

/// Loads the entry at a path under a namespace.
pub fn bucket_load_file(store: &mut Store, path: &String, namespace: &String) -> (r: Result<
    File,
    ContractError,
>)
    requires
        old(store).wf(),
    ensures
        *final(store) == *old(store),
        match r {
            Ok(f) => old(store)@.files.contains_key((namespace@, path@)) && f@ == old(store)@.files[
                (namespace@, path@)
            ] && f.wf(),
            Err(e) => !old(store)@.files.contains_key((namespace@, path@)) && e is NotFound,
        },
{
    match store.files.get(namespace, path) {
        Some(f) => Ok(f.clone()),
        None => Err(ContractError::NotFound { kind: "No file found at this path.".to_owned() }),
    }
}

/// Loads the entry at a path under a namespace, read-only.
pub fn bucket_load_readonly_file(store: &Store, path: &String, namespace: &String) -> (r: Result<
    File,
    ContractError,
>)
    requires
        store.wf(),
    ensures
        match r {
            Ok(f) => store@.files.contains_key((namespace@, path@)) && f@ == store@.files[
                (namespace@, path@)
            ] && f.wf(),
            Err(e) => !store@.files.contains_key((namespace@, path@)) && e is NotFound,
        },
{
    match store.files.get(namespace, path) {
        Some(f) => Ok(f.clone()),
        None => Err(ContractError::NotFound { kind: "File".to_owned() }),
    }
}

/// The contract of an entry query.
pub open spec fn query_file_post(
    pre: StoreV,
    r: Result<FileResponse, ContractError>,
    path: Seq<char>,
    behalf: Seq<char>,
) -> bool {
    let k = (ns_of_path(pre, path, fb_not_found()), path);
    match r {
        Ok(resp) => pre.files.contains_key(k) && can_read_of(pre.files[k], behalf) && resp.file@
            == pre.files[k],
        Err(e) => {
            &&& !(pre.files.contains_key(k) && can_read_of(pre.files[k], behalf))
            &&& (e is NotFound <==> !pre.files.contains_key(k))
            &&& (e is Unauthorized <==> (pre.files.contains_key(k) && !can_read_of(
                pre.files[k],
                behalf,
            )))
        },
    }
}

/// Returns the entry at a path to a caller the entry lets read.
pub fn query_file(store: &Store, path: String, behalf: &String) -> (r: Result<
    FileResponse,
    ContractError,
>)
    requires
        store.wf(),
    ensures
        query_file_post(store@, r, path@, behalf@),
{
    let full_namespace = effective_namespace(store, &path, "namespace not found!");
    let f = bucket_load_readonly_file(store, &path, &full_namespace);
    match f {
        Ok(f1) => {
            if f1.can_read(behalf.clone()) {
                return Ok(FileResponse { file: f1 });
            }
            Err(ContractError::Unauthorized {
                msg: "Sorry bud! Unauthorized to read file.".to_owned(),
            })
        },
        Err(_err) => Err(ContractError::NotFound {
            kind: "File not found. Incorrect path or root directory.".to_owned(),
        }),
    }
}

/// The contract of an account-record query.
pub open spec fn query_wallet_info_post(
    pre: StoreV,
    r: Result<WalletInfoResponse, ContractError>,
    behalf: Seq<char>,
) -> bool {
    match r {
        Ok(wr) => pre.wallets.contains_key(behalf) && wr.init == pre.wallets[behalf].init
            && wr.namespace@ == pre.wallets[behalf].namespace && wr.counter as int == pre.wallets[
            behalf
        ].counter && wr.message_list_counter as int == pre.wallets[behalf].message_list_counter,
        Err(e) => !pre.wallets.contains_key(behalf) && e is NotFound,
    }
}

/// Returns the account record bound to an address.
pub fn query_wallet_info(store: &Store, behalf: &String) -> (r: Result<
    WalletInfoResponse,
    ContractError,
>)
    requires
        store.wf(),
    ensures
        query_wallet_info_post(store@, r, behalf@),
{
    match store.wallets.get(behalf) {
        Some(w) => Ok(WalletInfoResponse {
            init: w.init,
            namespace: w.namespace.clone(),
            counter: w.counter,
            message_list_counter: w.message_list_counter,
        }),
        None => Err(ContractError::NotFound { kind: "Wallet not found.".to_owned() }),
    }
}

/// The contract of the open status query: always answered, with the
/// default record standing in for an unknown account.
pub open spec fn you_up_bro_post(
    pre: StoreV,
    r: Result<WalletInfoResponse, ContractError>,
    address: Seq<char>,
) -> bool {
    let w = if pre.wallets.contains_key(address) {
        pre.wallets[address]
    } else {
        default_wallet()
    };
    match r {
        Ok(wr) => wr.init == w.init && wr.namespace@ == w.namespace && wr.counter as int
            == w.counter && wr.message_list_counter as int == w.message_list_counter,
        Err(_) => false,
    }
}

/// Reports an account record to anyone, with the default record for an
/// account that was never initialized.
pub fn try_you_up_bro(store: &Store, address: String) -> (r: Result<
    WalletInfoResponse,
    ContractError,
>)
    requires
        store.wf(),
    ensures
        you_up_bro_post(store@, r, address@),
{
    match store.wallets.get(&address) {
        Some(w) => Ok(WalletInfoResponse {
            init: w.init,
            namespace: w.namespace.clone(),
            counter: w.counter,
            message_list_counter: w.message_list_counter,
        }),
        None => Ok(WalletInfoResponse {
            init: false,
            namespace: "empty".to_owned(),
            counter: 0,
            message_list_counter: 0,
        }),
    }
}

/// What revocation does: the record is marked inactive and the file
/// generation moves forward, detaching every entry of the old namespace
/// from future lookups in one step.
pub open spec fn forget_step(s: StoreV, adr: Seq<char>) -> StoreV {
    let w0 = s.wallets[adr];
    let w1 = WalletInfoV {
        init: false,
        namespace: full_namespace(adr, w0.counter + 1),
        counter: w0.counter + 1,
        ..w0
    };
    StoreV { wallets: s.wallets.insert(adr, w1), ..s }
}

/// The contract of revocation.
pub open spec fn forget_me_post(
    pre: StoreV,
    post: StoreV,
    r: Result<HandleResponse, ContractError>,
    adr: Seq<char>,
) -> bool {
    match r {
        Ok(resp) => pre.wallets.contains_key(adr) && post == forget_step(pre, adr)
            && resp.messages@.len() == 0 && resp.data is None,
        Err(e) => !pre.wallets.contains_key(adr) && post == pre && e is NotFound,
    }
}

/// Revokes the caller's whole namespace by rotating its generation
/// counter; the entries under the old namespace are never deleted, only
/// left unreachable.
pub fn try_forget_me(store: &mut Store, env: &Env) -> (r: Result<HandleResponse, ContractError>)
    requires
        old(store).wf(),
        old(store)@.wallets.contains_key(env.sender@) ==> old(store)@.wallets[env.sender@].counter
            < i32::MAX,
    ensures
        final(store).wf(),
        forget_me_post(old(store)@, final(store)@, r, env.sender@),
{
    let adr = env.sender.clone();
    let mut wallet_info = match store.wallets.get(&adr) {
        Some(w) => w.clone(),
        None => {
            return Err(ContractError::NotFound { kind: "WalletInfo".to_owned() });
        },
    };
    wallet_info.init = false;
    let new_counter = wallet_info.counter + 1;
    wallet_info.counter = new_counter;
    let mut new_namespace = adr.clone();
    new_namespace.append(dec_string(new_counter as u64).as_str());
    wallet_info.namespace = new_namespace;
    store.wallets.insert(adr, wallet_info);
    Ok(HandleResponse::default())
}

/// What an unconditional write of a fresh entry does.
pub open spec fn create_file_step(
    s: StoreV,
    owner: Seq<char>,
    path: Seq<char>,
    contents: Seq<char>,
) -> StoreV {
    StoreV {
        files: s.files.insert(
            (ns_of_path(s, path, fb_not_exist()), path),
            new_file(owner, contents),
        ),
        ..s
    }
}

/// Creation demands an existing parent entry.
pub open spec fn create_parent_exists(s: StoreV, path: Seq<char>) -> bool {
    s.files.contains_key((ns_of_path(s, path, fb_not_exist()), parent_path_of(path)))
}

/// Creation demands write capability on the parent entry.
pub open spec fn create_authorized(s: StoreV, ha: Seq<char>, path: Seq<char>) -> bool {
    can_write_of(s.files[(ns_of_path(s, path, fb_not_exist()), parent_path_of(path))], ha)
}

/// What an authorized creation does: the fresh entry is written and a
/// claim record for out-of-band key exchange is dropped beside it.
pub open spec fn do_create_file_step(
    s: StoreV,
    ha: Seq<char>,
    contents: Seq<char>,
    path: Seq<char>,
    pkey: Seq<char>,
    skey: Seq<char>,
) -> StoreV {
    let s1 = create_file_step(s, ha, path, contents);
    StoreV { claims: s1.claims.insert(skey, ha + pkey), ..s1 }
}

/// The contract of one creation: success exactly when the parent exists
/// and lets the caller write, the errors split accordingly, and a
/// failed call leaves the store alone.
pub open spec fn do_create_post(
    pre: StoreV,
    post: StoreV,
    r: Result<HandleResponse, ContractError>,
    ha: Seq<char>,
    contents: Seq<char>,
    path: Seq<char>,
    pkey: Seq<char>,
    skey: Seq<char>,
) -> bool {
    match r {
        Ok(resp) => create_parent_exists(pre, path) && create_authorized(pre, ha, path) && post
            == do_create_file_step(pre, ha, contents, path, pkey, skey) && resp.messages@.len()
            == 0 && resp.data is None,
        Err(e) => {
            &&& post == pre
            &&& !(create_parent_exists(pre, path) && create_authorized(pre, ha, path))
            &&& (e is NotFound <==> !create_parent_exists(pre, path))
            &&& (e is Unauthorized <==> (create_parent_exists(pre, path) && !create_authorized(
                pre,
                ha,
                path,
            )))
        },
    }
}

/// Writes a fresh entry with no authorization check; the namespace
/// comes from the path's leading segment, so an authorized caller can
/// create inside another account's tree.
pub fn create_file(store: &mut Store, owner: String, path: String, contents: String)
    requires
        old(store).wf(),
    ensures
        final(store).wf(),
        final(store)@ == create_file_step(old(store)@, owner@, path@, contents@),
{
    let file = make_file(owner.as_str(), contents.as_str());
    let namespace = effective_namespace(store, &path, "namespace does not exist!");
    bucket_save_file(store, &path, file, &namespace);
}

fn do_create_file(
    store: &mut Store,
    ha: String,
    contents: String,
    path: String,
    pkey: String,
    skey: String,
) -> (r: Result<HandleResponse, ContractError>)
    requires
        old(store).wf(),
    ensures
        final(store).wf(),
        do_create_post(old(store)@, final(store)@, r, ha@, contents@, path@, pkey@, skey@),
{
    let par_path = parent_path(path.clone());
    let namespace = effective_namespace(store, &path, "namespace does not exist!");
    let res = bucket_load_readonly_file(store, &par_path, &namespace);
    match res {
        Ok(f) => {
            if f.can_write(ha.clone()) {
                create_file(store, ha.clone(), path, contents);
                let mut acl = ha;
                acl.append(pkey.as_str());
                crate::nodes::write_claim(store, acl, skey);
                return Ok(HandleResponse::default());
            }
            Err(ContractError::Unauthorized {
                msg: "Sorry. You are unauthorized to create a file in this folder.".to_owned(),
            })
        },
        Err(_e) => {
            let mut kind = String::from_str("File creation unsuccessful. Parent path: '");
            kind.append(par_path.as_str());
            kind.append("' doesn't exist.");
            Err(ContractError::NotFound { kind })
        },
    }
}

/// Creates an entry for the transaction signer.
pub fn try_create_file(
    store: &mut Store,
    env: &Env,
    contents: String,
    path: String,
    pkey: String,
    skey: String,
) -> (r: Result<HandleResponse, ContractError>)
    requires
        old(store).wf(),
    ensures
        final(store).wf(),
        do_create_post(
            old(store)@,
            final(store)@,
            r,
            env.sender@,
            contents@,
            path@,
            pkey@,
            skey@,
        ),
{
    let ha = env.sender.clone();
    do_create_file(store, ha, contents, path, pkey, skey)
}

/// The namespace a removal works under.
pub open spec fn remove_key(s: StoreV, path: Seq<char>) -> (Seq<char>, Seq<char>) {
    (ns_of_path(s, path, fb_not_exist()), path)
}

/// What removing an entry does.
pub open spec fn remove_file_step(s: StoreV, path: Seq<char>) -> StoreV {
    StoreV { files: s.files.remove(remove_key(s, path)), ..s }
}

pub open spec fn remove_exists(s: StoreV, path: Seq<char>) -> bool {
    s.files.contains_key(remove_key(s, path))
}

/// Only the owner may remove an entry.
pub open spec fn remove_owned(s: StoreV, sender: Seq<char>, path: Seq<char>) -> bool {
    s.files[remove_key(s, path)].owner == sender
}

/// The contract of one removal.
pub open spec fn remove_post(
    pre: StoreV,
    post: StoreV,
    r: Result<HandleResponse, ContractError>,
    sender: Seq<char>,
    path: Seq<char>,
) -> bool {
    match r {
        Ok(resp) => remove_exists(pre, path) && remove_owned(pre, sender, path) && post
            == remove_file_step(pre, path) && resp.messages@.len() == 0 && resp.data is None,
        Err(e) => {
            &&& post == pre
            &&& !(remove_exists(pre, path) && remove_owned(pre, sender, path))
            &&& (e is NotFound <==> !remove_exists(pre, path))
            &&& (e is Unauthorized <==> (remove_exists(pre, path) && !remove_owned(
                pre,
                sender,
                path,
            )))
        },
    }
}

/// Removes an entry; only its owner may.
pub fn try_remove_file(store: &mut Store, env: &Env, path: String) -> (r: Result<
    HandleResponse,
    ContractError,
>)
    requires
        old(store).wf(),
    ensures
        final(store).wf(),
        remove_post(old(store)@, final(store)@, r, env.sender@, path@),
{
    let namespace = effective_namespace(store, &path, "namespace does not exist!");
    let res = bucket_load_readonly_file(store, &path, &namespace);
    match res {
        Ok(f) => {
            if f.owner.eq(&env.sender) {
                bucket_remove_file(store, &path, &namespace);
                return Ok(HandleResponse::default());
            }
            Err(ContractError::Unauthorized {
                msg: "Sorry. You are not authorized to remove this file".to_owned(),
            })
        },
        Err(_e) => Err(ContractError::NotFound {
            kind: "This path does not exist. Cannot remove.".to_owned(),
        }),
    }
}

/// The source entry a move reads.
pub open spec fn move_src_key(s: StoreV, old_path: Seq<char>) -> (Seq<char>, Seq<char>) {
    (ns_of_path(s, old_path, fb_not_found()), old_path)
}

/// The state after the creation half of a move: the source's contents
/// duplicated at the destination, under the mover as owner.
pub open spec fn move_created(
    s: StoreV,
    sender: Seq<char>,
    old_path: Seq<char>,
    new_path: Seq<char>,
) -> StoreV {
    do_create_file_step(
        s,
        sender,
        s.files[move_src_key(s, old_path)].contents,
        new_path,
        Seq::empty(),
        Seq::empty(),
    )
}

#[allow(dead_code)]
pub enum MoveVerdict {
    Moved,
    SourceMissing,
    NotOwner,
    DestMissing,
    DestRefused,
    RemoveFailed,
}

/// How one move resolves, checked in the order the operation checks.
pub open spec fn move_verdict(
    s: StoreV,
    sender: Seq<char>,
    old_path: Seq<char>,
    new_path: Seq<char>,
) -> MoveVerdict {
    if !s.files.contains_key(move_src_key(s, old_path)) {
        MoveVerdict::SourceMissing
    } else if s.files[move_src_key(s, old_path)].owner != sender {
        MoveVerdict::NotOwner
    } else if !create_parent_exists(s, new_path) {
        MoveVerdict::DestMissing
    } else if !create_authorized(s, sender, new_path) {
        MoveVerdict::DestRefused
    } else {
        let s2 = move_created(s, sender, old_path, new_path);
        if remove_exists(s2, old_path) && remove_owned(s2, sender, old_path) {
            MoveVerdict::Moved
        } else {
            MoveVerdict::RemoveFailed
        }
    }
}

/// The state a move leaves: untouched on an early failure, created but
/// not removed when only the removal half fails, and fully relocated on
/// success.
pub open spec fn move_state(
    s: StoreV,
    sender: Seq<char>,
    old_path: Seq<char>,
    new_path: Seq<char>,
) -> StoreV {
    match move_verdict(s, sender, old_path, new_path) {
        MoveVerdict::SourceMissing => s,
        MoveVerdict::NotOwner => s,
        MoveVerdict::DestMissing => s,
        MoveVerdict::DestRefused => s,
        MoveVerdict::RemoveFailed => move_created(s, sender, old_path, new_path),
        MoveVerdict::Moved => remove_file_step(
            move_created(s, sender, old_path, new_path),
            old_path,
        ),
    }
}

/// The contract of one move.
pub open spec fn move_post(
    pre: StoreV,
    post: StoreV,
    r: Result<HandleResponse, ContractError>,
    sender: Seq<char>,
    old_path: Seq<char>,
    new_path: Seq<char>,
) -> bool {
    &&& post == move_state(pre, sender, old_path, new_path)
    &&& match r {
        Ok(resp) => move_verdict(pre, sender, old_path, new_path) is Moved && resp.messages@.len()
            == 0 && resp.data is None,
        Err(e) => {
            let v = move_verdict(pre, sender, old_path, new_path);
            &&& !(v is Moved)
            &&& (e is NotFound <==> (v is SourceMissing || v is DestMissing))
            &&& (e is Unauthorized <==> (v is NotOwner || v is DestRefused))
            &&& (e is InvalidState <==> v is RemoveFailed)
        },
    }
}

/// Moves an entry: duplicates its contents at the destination (subject
/// to the destination parent's authorization), then removes the source.
/// The two halves are not atomic at this layer.
pub fn try_move_file(store: &mut Store, env: &Env, old_path: String, new_path: String) -> (r:
    Result<HandleResponse, ContractError>)
    requires
        old(store).wf(),
    ensures
        final(store).wf(),
        move_post(old(store)@, final(store)@, r, env.sender@, old_path@, new_path@),
{
    let namespace = effective_namespace(store, &old_path, "namespace not found!");
    let file = bucket_load_readonly_file(store, &old_path, &namespace);
    let file_res = match file {
        Ok(f) => f,
        Err(_) => {
            return Err(ContractError::NotFound {
                kind:
                    "File move unsuccessful. This file does not exist. Check path is correct".to_owned(),
            });
        },
    };
    if !file_res.owner.eq(&env.sender) {
        return Err(ContractError::Unauthorized {
            msg: "You do not own this file and cannot move it".to_owned(),
        });
    }
    let duplicated_contents = file_res.contents;
    let new_file = do_create_file(
        store,
        env.sender.clone(),
        duplicated_contents,
        new_path,
        String::new(),
        String::new(),
    );
    match new_file {
        Ok(_handle_response) => {},
        Err(e) => match e {
            ContractError::Unauthorized { .. } => {
                return Err(ContractError::Unauthorized {
                    msg:
                        "File move unsuccessful. Not permitted to write to destination folder".to_owned(),
                });
            },
            ContractError::NotFound { .. } => {
                return Err(ContractError::NotFound {
                    kind: "File move unsuccessful. Destination folder does not exist".to_owned(),
                });
            },
            _ => {
                proof {
                    assert(false);
                }
                return Err(ContractError::InvalidState {
                    msg: "It's impossible to reach this default branch".to_owned(),
                });
            },
        },
    }
    proof {
        assert(old(store)@.files.contains_key(move_src_key(old(store)@, old_path@)));
        assert(old(store)@.files[move_src_key(old(store)@, old_path@)].owner == env.sender@);
        assert(create_parent_exists(old(store)@, new_path@));
        assert(create_authorized(old(store)@, env.sender@, new_path@));
        assert(store@ == move_created(old(store)@, env.sender@, old_path@, new_path@));
    }
    let removed = try_remove_file(store, env, old_path);
    match removed {
        Ok(_handle_response) => {},
        Err(_e) => {
            proof {
                assert(move_verdict(old(store)@, env.sender@, old_path@, new_path@)
                    is RemoveFailed);
                assert(store@ == move_created(old(store)@, env.sender@, old_path@, new_path@));
            }
            return Err(ContractError::InvalidState {
                msg: "Unable to remove file in old path".to_owned(),
            });
        },
    }
    Ok(HandleResponse::default())
}

/// What an authorized ownership transfer does: the owner field changes
/// and the grant lists stay, and the new owner is notified.
pub open spec fn change_owner_post(
    pre: StoreV,
    post: StoreV,
    r: Result<HandleResponse, ContractError>,
    sender: Seq<char>,
    path: Seq<char>,
    message: Seq<char>,
    new_owner: Seq<char>,
) -> bool {
    let k = (ns_of_path(pre, path, fb_not_found()), path);
    match r {
        Ok(resp) => pre.files.contains_key(k) && can_write_of(pre.files[k], sender) && post == (
        StoreV {
            files: pre.files.insert(k, FileV { owner: new_owner, ..pre.files[k] }),
            ..crate::messaging::send_message_step(pre, sender, new_owner, message)
        }) && resp.messages@.len() == 0 && resp.data is None,
        Err(e) => {
            &&& post == pre
            &&& !(pre.files.contains_key(k) && can_write_of(pre.files[k], sender))
            &&& (e is NotFound <==> !pre.files.contains_key(k))
            &&& (e is Unauthorized <==> (pre.files.contains_key(k) && !can_write_of(
                pre.files[k],
                sender,
            )))
        },
    }
}

/// Hands an entry to a new owner; any writer may, and the grant lists
/// are left untouched.
pub fn try_change_owner(
    store: &mut Store,
    env: &Env,
    path: String,
    message: String,
    new_owner: String,
) -> (r: Result<HandleResponse, ContractError>)
    requires
        old(store).wf(),
    ensures
        final(store).wf(),
        change_owner_post(
            old(store)@,
            final(store)@,
            r,
            env.sender@,
            path@,
            message@,
            new_owner@,
        ),
{
    let signer = env.sender.clone();
    let full_namespace = effective_namespace(store, &path, "namespace not found!");
    let mut f = bucket_load_file(store, &path, &full_namespace)?;
    if f.can_write(signer.clone()) {
        f.change_owner(new_owner.clone());
        let sent_message = crate::messaging::send_message(store, env, new_owner, &message);
        match sent_message {
            Ok(_) => (),
            Err(_) => {
                proof {
                    assert(false);
                }
                return Err(ContractError::NotFound {
                    kind: "recipient does not exist".to_owned(),
                });
            },
        }
        bucket_save_file(store, &path, f, &full_namespace);
    } else {
        return Err(ContractError::Unauthorized { msg: "Unauthorized to change owner".to_owned() });
    }
    Ok(HandleResponse::default())
}

/// Adding a read grant: a no-op for the owner, idempotent for everyone
/// else.
pub open spec fn apply_allow_read(f: FileV, a: Seq<char>) -> FileV {
    if f.owner == a {
        f
    } else {
        FileV { allow_read_list: push_grant(f.allow_read_list, a), ..f }
    }
}

pub open spec fn apply_allow_write(f: FileV, a: Seq<char>) -> FileV {
    if f.owner == a {
        f
    } else {
        FileV { allow_write_list: push_grant(f.allow_write_list, a), ..f }
    }
}

pub open spec fn apply_disallow_read(f: FileV, a: Seq<char>) -> FileV {
    if f.owner == a {
        f
    } else {
        FileV { allow_read_list: f.allow_read_list.remove_value(a), ..f }
    }
}

pub open spec fn apply_disallow_write(f: FileV, a: Seq<char>) -> FileV {
    if f.owner == a {
        f
    } else {
        FileV { allow_write_list: f.allow_write_list.remove_value(a), ..f }
    }
}

/// One grant-list edit per listed account, in order.
pub open spec fn grant_fold(
    f: FileV,
    addrs: Seq<Seq<char>>,
    step: spec_fn(FileV, Seq<char>) -> FileV,
) -> FileV
    decreases addrs.len(),
{
    if addrs.len() == 0 {
        f
    } else {
        grant_fold(step(f, addrs.first()), addrs.drop_first(), step)
    }
}

proof fn lemma_grant_fold_snoc(
    f: FileV,
    addrs: Seq<Seq<char>>,
    a: Seq<char>,
    step: spec_fn(FileV, Seq<char>) -> FileV,
)
    ensures
        grant_fold(f, addrs.push(a), step) == step(grant_fold(f, addrs, step), a),
    decreases addrs.len(),
{
    let p = addrs.push(a);
    assert(p.len() > 0);
    if addrs.len() == 0 {
        assert(p.first() == a);
        assert(p.drop_first() =~= Seq::<Seq<char>>::empty());
        assert(grant_fold(f, p, step) == grant_fold(step(f, a), p.drop_first(), step));
        assert(grant_fold(step(f, a), p.drop_first(), step) == step(f, a));
        assert(grant_fold(f, addrs, step) == f);
    } else {
        assert(p.first() == addrs.first());
        assert(p.drop_first() =~= addrs.drop_first().push(a));
        let f1 = step(f, addrs.first());
        assert(grant_fold(f, p, step) == grant_fold(f1, p.drop_first(), step));
        lemma_grant_fold_snoc(f1, addrs.drop_first(), a, step);
        assert(grant_fold(f1, addrs.drop_first().push(a), step) == step(
            grant_fold(f1, addrs.drop_first(), step),
            a,
        ));
        assert(grant_fold(f, addrs, step) == grant_fold(f1, addrs.drop_first(), step));
    }
}

/// The recipients a revocation notifies: the listed accounts when
/// notification is asked for, nobody otherwise.
pub open spec fn notify_targets(notify: bool, addrs: Seq<Seq<char>>) -> Seq<Seq<char>> {
    if notify {
        addrs
    } else {
        Seq::empty()
    }
}

/// The contract shared by the four grant-editing operations: the entry
/// must exist and let the caller write; each listed account is edited
/// into or out of the grant list in order; each notified account gets
/// the message.
pub open spec fn grant_op_post(
    pre: StoreV,
    post: StoreV,
    r: Result<HandleResponse, ContractError>,
    sender: Seq<char>,
    path: Seq<char>,
    message: Seq<char>,
    addrs: Seq<Seq<char>>,
    notified: Seq<Seq<char>>,
    step: spec_fn(FileV, Seq<char>) -> FileV,
) -> bool {
    let k = (ns_of_path(pre, path, fb_not_exist()), path);
    match r {
        Ok(resp) => pre.files.contains_key(k) && can_write_of(pre.files[k], sender) && post == (
        StoreV {
            files: pre.files.insert(k, grant_fold(pre.files[k], addrs, step)),
            ..crate::messaging::send_all_step(pre, sender, notified, message)
        }) && resp.messages@.len() == 0 && resp.data is None,
        Err(e) => {
            &&& post == pre
            &&& !(pre.files.contains_key(k) && can_write_of(pre.files[k], sender))
            &&& (e is NotFound <==> !pre.files.contains_key(k))
            &&& (e is Unauthorized <==> (pre.files.contains_key(k) && !can_write_of(
                pre.files[k],
                sender,
            )))
        },
    }
}

/// Grants read capability to each listed account and notifies each.
pub fn try_allow_read(
    store: &mut Store,
    env: &Env,
    path: String,
    message: String,
    address_list: Vec<String>,
) -> (r: Result<HandleResponse, ContractError>)
    requires
        old(store).wf(),
    ensures
        final(store).wf(),
        grant_op_post(
            old(store)@,
            final(store)@,
            r,
            env.sender@,
            path@,
            message@,
            address_list.deep_view(),
            address_list.deep_view(),
            |f: FileV, a: Seq<char>| apply_allow_read(f, a),
        ),
{
    let ghost step = |f: FileV, a: Seq<char>| apply_allow_read(f, a);
    let ghost addrs = address_list.deep_view();
    let signer = env.sender.clone();
    let namespace = effective_namespace(store, &path, "namespace does not exist!");
    let mut f = bucket_load_file(store, &path, &namespace)?;
    if !f.can_write(signer.clone()) {
        return Err(ContractError::Unauthorized { msg: "Unauthorized to allow read".to_owned() });
    }
    let ghost k = (namespace@, path@);
    let ghost f0 = old(store)@.files[k];
    proof {
        assert(old(store)@.files.insert(k, grant_fold(f0, addrs.take(0), step)) =~= old(
            store,
        )@.files);
        assert(addrs.take(0) =~= Seq::<Seq<char>>::empty());
    }
    let n = address_list.len();
    let mut i: usize = 0;
    while i < n
        invariant
            store.wf(),
            n == address_list@.len(),
            i <= n,
            addrs == address_list.deep_view(),
            step == (|fv: FileV, a: Seq<char>| apply_allow_read(fv, a)),
            k == (namespace@, path@),
            namespace@ == ns_of_path(old(store)@, path@, fb_not_exist()),
            f0 == old(store)@.files[k],
            old(store)@.files.contains_key(k),
            old(store).wf(),
            f.wf(),
            f@ == grant_fold(f0, addrs.take(i as int), step),
            store@ == (StoreV {
                files: old(store)@.files.insert(k, f@),
                ..crate::messaging::send_all_step(
                    old(store)@,
                    env.sender@,
                    addrs.take(i as int),
                    message@,
                )
            }),
        decreases n - i,
    {
        let ghost s_i = store@;
        let address = &address_list[i];
        f.allow_read(address.clone());
        let recipient = address.clone();
        let sent_message = crate::messaging::send_message(store, env, recipient, &message);
        match sent_message {
            Ok(_) => (),
            Err(_) => {
                proof {
                    assert(false);
                }
                return Err(ContractError::NotFound {
                    kind: "recipient does not exist".to_owned(),
                });
            },
        }
        bucket_save_file(store, &path, f.clone(), &namespace);
        proof {
            let pre = old(store)@;
            let a_i = addrs[i as int];
            assert(addrs.take(i as int + 1) =~= addrs.take(i as int).push(a_i));
            assert(f@ == grant_fold(f0, addrs.take(i as int + 1), step)) by {
                lemma_grant_fold_snoc(f0, addrs.take(i as int), a_i, step);
            }
            let sa_i = crate::messaging::send_all_step(pre, env.sender@, addrs.take(i as int),
                message@);
            crate::messaging::lemma_send_all_frame(pre, env.sender@, addrs.take(i as int),
                message@);
            crate::messaging::lemma_send_all_snoc(pre, env.sender@, addrs.take(i as int), a_i,
                message@);
            crate::messaging::lemma_send_step_agree(s_i, sa_i, env.sender@, a_i, message@);
            crate::messaging::lemma_send_step_frame(s_i, env.sender@, a_i, message@);
            let sa_i1 = crate::messaging::send_all_step(pre, env.sender@, addrs.take(
                i as int + 1,
            ), message@);
            crate::messaging::lemma_send_all_frame(pre, env.sender@, addrs.take(i as int + 1),
                message@);
            assert(store@.mailboxes == sa_i1.mailboxes);
            assert(store@.files =~= pre.files.insert(k, f@));
            assert(store@ == (StoreV { files: pre.files.insert(k, f@), ..sa_i1 }));
        }
        i += 1;
    }
    proof {
        assert(addrs.take(n as int) =~= addrs);
    }
    Ok(HandleResponse::default())
}

/// Grants write capability to each listed account and notifies each.
pub fn try_allow_write(
    store: &mut Store,
    env: &Env,
    path: String,
    message: String,
    address_list: Vec<String>,
) -> (r: Result<HandleResponse, ContractError>)
    requires
        old(store).wf(),
    ensures
        final(store).wf(),
        grant_op_post(
            old(store)@,
            final(store)@,
            r,
            env.sender@,
            path@,
            message@,
            address_list.deep_view(),
            address_list.deep_view(),
            |f: FileV, a: Seq<char>| apply_allow_write(f, a),
        ),
{
    let ghost step = |f: FileV, a: Seq<char>| apply_allow_write(f, a);
    let ghost addrs = address_list.deep_view();
    let signer = env.sender.clone();
    let namespace = effective_namespace(store, &path, "namespace does not exist!");
    let mut f = bucket_load_file(store, &path, &namespace)?;
    if !f.can_write(signer.clone()) {
        return Err(ContractError::Unauthorized { msg: "Unauthorized to allow write".to_owned() });
    }
    let ghost k = (namespace@, path@);
    let ghost f0 = old(store)@.files[k];
    proof {
        assert(old(store)@.files.insert(k, grant_fold(f0, addrs.take(0), step)) =~= old(
            store,
        )@.files);
        assert(addrs.take(0) =~= Seq::<Seq<char>>::empty());
    }
    let n = address_list.len();
    let mut i: usize = 0;
    while i < n
        invariant
            store.wf(),
            n == address_list@.len(),
            i <= n,
            addrs == address_list.deep_view(),
            step == (|fv: FileV, a: Seq<char>| apply_allow_write(fv, a)),
            k == (namespace@, path@),
            namespace@ == ns_of_path(old(store)@, path@, fb_not_exist()),
            f0 == old(store)@.files[k],
            old(store)@.files.contains_key(k),
            old(store).wf(),
            f.wf(),
            f@ == grant_fold(f0, addrs.take(i as int), step),
            store@ == (StoreV {
                files: old(store)@.files.insert(k, f@),
                ..crate::messaging::send_all_step(
                    old(store)@,
                    env.sender@,
                    addrs.take(i as int),
                    message@,
                )
            }),
        decreases n - i,
    {
        let ghost s_i = store@;
        let address = &address_list[i];
        f.allow_write(address.clone());
        let recipient = address.clone();
        let sent_message = crate::messaging::send_message(store, env, recipient, &message);
        match sent_message {
            Ok(_) => (),
            Err(_) => {
                proof {
                    assert(false);
                }
                return Err(ContractError::NotFound {
                    kind: "recipient does not exist".to_owned(),
                });
            },
        }
        bucket_save_file(store, &path, f.clone(), &namespace);
        proof {
            let pre = old(store)@;
            let a_i = addrs[i as int];
            assert(addrs.take(i as int + 1) =~= addrs.take(i as int).push(a_i));
            assert(f@ == grant_fold(f0, addrs.take(i as int + 1), step)) by {
                lemma_grant_fold_snoc(f0, addrs.take(i as int), a_i, step);
            }
            let sa_i = crate::messaging::send_all_step(pre, env.sender@, addrs.take(i as int),
                message@);
            crate::messaging::lemma_send_all_frame(pre, env.sender@, addrs.take(i as int),
                message@);
            crate::messaging::lemma_send_all_snoc(pre, env.sender@, addrs.take(i as int), a_i,
                message@);
            crate::messaging::lemma_send_step_agree(s_i, sa_i, env.sender@, a_i, message@);
            crate::messaging::lemma_send_step_frame(s_i, env.sender@, a_i, message@);
            let sa_i1 = crate::messaging::send_all_step(pre, env.sender@, addrs.take(
                i as int + 1,
            ), message@);
            crate::messaging::lemma_send_all_frame(pre, env.sender@, addrs.take(i as int + 1),
                message@);
            assert(store@.mailboxes == sa_i1.mailboxes);
            assert(store@.files =~= pre.files.insert(k, f@));
            assert(store@ == (StoreV { files: pre.files.insert(k, f@), ..sa_i1 }));
        }
        i += 1;
    }
    proof {
        assert(addrs.take(n as int) =~= addrs);
    }
    Ok(HandleResponse::default())
}

/// Revokes read capability from each listed account, notifying each
/// when asked to.
pub fn try_disallow_read(
    store: &mut Store,
    env: &Env,
    path: String,
    message: String,
    notify: bool,
    address_list: Vec<String>,
) -> (r: Result<HandleResponse, ContractError>)
    requires
        old(store).wf(),
    ensures
        final(store).wf(),
        grant_op_post(
            old(store)@,
            final(store)@,
            r,
            env.sender@,
            path@,
            message@,
            address_list.deep_view(),
            notify_targets(notify, address_list.deep_view()),
            |f: FileV, a: Seq<char>| apply_disallow_read(f, a),
        ),
{
    let ghost step = |f: FileV, a: Seq<char>| apply_disallow_read(f, a);
    let ghost addrs = address_list.deep_view();
    let signer = env.sender.clone();
    let namespace = effective_namespace(store, &path, "namespace does not exist!");
    let mut f = bucket_load_file(store, &path, &namespace)?;
    if !f.can_write(signer.clone()) {
        return Err(ContractError::Unauthorized {
            msg: "Unauthorized to disallow read".to_owned(),
        });
    }
    let ghost k = (namespace@, path@);
    let ghost f0 = old(store)@.files[k];
    proof {
        assert(old(store)@.files.insert(k, grant_fold(f0, addrs.take(0), step)) =~= old(
            store,
        )@.files);
        assert(addrs.take(0) =~= Seq::<Seq<char>>::empty());
        assert(notify_targets(notify, addrs.take(0)) =~= Seq::<Seq<char>>::empty());
    }
    let n = address_list.len();
    let mut i: usize = 0;
    while i < n
        invariant
            store.wf(),
            n == address_list@.len(),
            i <= n,
            addrs == address_list.deep_view(),
            step == (|fv: FileV, a: Seq<char>| apply_disallow_read(fv, a)),
            k == (namespace@, path@),
            namespace@ == ns_of_path(old(store)@, path@, fb_not_exist()),
            f0 == old(store)@.files[k],
            old(store)@.files.contains_key(k),
            old(store).wf(),
            f.wf(),
            f@ == grant_fold(f0, addrs.take(i as int), step),
            store@ == (StoreV {
                files: old(store)@.files.insert(k, f@),
                ..crate::messaging::send_all_step(
                    old(store)@,
                    env.sender@,
                    notify_targets(notify, addrs.take(i as int)),
                    message@,
                )
            }),
        decreases n - i,
    {
        let ghost s_i = store@;
        let address = &address_list[i];
        f.disallow_read(address.clone());
        if notify {
            let recipient = address.clone();
            let sent_message = crate::messaging::send_message(store, env, recipient, &message);
            match sent_message {
                Ok(_) => (),
                Err(_) => {
                    proof {
                        assert(false);
                    }
                    return Err(ContractError::NotFound {
                        kind: "recipient does not exist".to_owned(),
                    });
                },
            }
        }
        bucket_save_file(store, &path, f.clone(), &namespace);
        proof {
            let pre = old(store)@;
            let a_i = addrs[i as int];
            assert(addrs.take(i as int + 1) =~= addrs.take(i as int).push(a_i));
            assert(f@ == grant_fold(f0, addrs.take(i as int + 1), step)) by {
                lemma_grant_fold_snoc(f0, addrs.take(i as int), a_i, step);
            }
            if notify {
                assert(notify_targets(notify, addrs.take(i as int + 1)) =~= notify_targets(
                    notify,
                    addrs.take(i as int),
                ).push(a_i));
                let sa_i = crate::messaging::send_all_step(pre, env.sender@, notify_targets(
                    notify,
                    addrs.take(i as int),
                ), message@);
                crate::messaging::lemma_send_all_frame(pre, env.sender@, notify_targets(notify,
                    addrs.take(i as int)), message@);
                crate::messaging::lemma_send_all_snoc(pre, env.sender@, notify_targets(notify,
                    addrs.take(i as int)), a_i, message@);
                crate::messaging::lemma_send_step_agree(s_i, sa_i, env.sender@, a_i, message@);
                crate::messaging::lemma_send_step_frame(s_i, env.sender@, a_i, message@);
            } else {
                assert(notify_targets(notify, addrs.take(i as int + 1)) =~= notify_targets(
                    notify,
                    addrs.take(i as int),
                ));
            }
            let sa_i1 = crate::messaging::send_all_step(pre, env.sender@, notify_targets(
                notify,
                addrs.take(i as int + 1),
            ), message@);
            crate::messaging::lemma_send_all_frame(pre, env.sender@, notify_targets(notify,
                addrs.take(i as int + 1)), message@);
            assert(store@.mailboxes == sa_i1.mailboxes);
            assert(store@.files =~= pre.files.insert(k, f@));
            assert(store@ == (StoreV { files: pre.files.insert(k, f@), ..sa_i1 }));
        }
        i += 1;
    }
    proof {
        assert(addrs.take(n as int) =~= addrs);
    }
    Ok(HandleResponse::default())
}

/// Revokes write capability from each listed account, notifying each
/// when asked to.
pub fn try_disallow_write(
    store: &mut Store,
    env: &Env,
    path: String,
    message: String,
    notify: bool,
    address_list: Vec<String>,
) -> (r: Result<HandleResponse, ContractError>)
    requires
        old(store).wf(),
    ensures
        final(store).wf(),
        grant_op_post(
            old(store)@,
            final(store)@,
            r,
            env.sender@,
            path@,
            message@,
            address_list.deep_view(),
            notify_targets(notify, address_list.deep_view()),
            |f: FileV, a: Seq<char>| apply_disallow_write(f, a),
        ),
{
    let ghost step = |f: FileV, a: Seq<char>| apply_disallow_write(f, a);
    let ghost addrs = address_list.deep_view();
    let signer = env.sender.clone();
    let namespace = effective_namespace(store, &path, "namespace does not exist!");
    let mut f = bucket_load_file(store, &path, &namespace)?;
    if !f.can_write(signer.clone()) {
        return Err(ContractError::Unauthorized {
            msg: "Unauthorized to disallow write".to_owned(),
        });
    }
    let ghost k = (namespace@, path@);
    let ghost f0 = old(store)@.files[k];
    proof {
        assert(old(store)@.files.insert(k, grant_fold(f0, addrs.take(0), step)) =~= old(
            store,
        )@.files);
        assert(addrs.take(0) =~= Seq::<Seq<char>>::empty());
        assert(notify_targets(notify, addrs.take(0)) =~= Seq::<Seq<char>>::empty());
    }
    let n = address_list.len();
    let mut i: usize = 0;
    while i < n
        invariant
            store.wf(),
            n == address_list@.len(),
            i <= n,
            addrs == address_list.deep_view(),
            step == (|fv: FileV, a: Seq<char>| apply_disallow_write(fv, a)),
            k == (namespace@, path@),
            namespace@ == ns_of_path(old(store)@, path@, fb_not_exist()),
            f0 == old(store)@.files[k],
            old(store)@.files.contains_key(k),
            old(store).wf(),
            f.wf(),
            f@ == grant_fold(f0, addrs.take(i as int), step),
            store@ == (StoreV {
                files: old(store)@.files.insert(k, f@),
                ..crate::messaging::send_all_step(
                    old(store)@,
                    env.sender@,
                    notify_targets(notify, addrs.take(i as int)),
                    message@,
                )
            }),
        decreases n - i,
    {
        let ghost s_i = store@;
        let address = &address_list[i];
        f.disallow_write(address.clone());
        if notify {
            let recipient = address.clone();
            let sent_message = crate::messaging::send_message(store, env, recipient, &message);
            match sent_message {
                Ok(_) => (),
                Err(_) => {
                    proof {
                        assert(false);
                    }
                    return Err(ContractError::NotFound {
                        kind: "recipient does not exist".to_owned(),
                    });
                },
            }
        }
        bucket_save_file(store, &path, f.clone(), &namespace);
        proof {
            let pre = old(store)@;
            let a_i = addrs[i as int];
            assert(addrs.take(i as int + 1) =~= addrs.take(i as int).push(a_i));
            assert(f@ == grant_fold(f0, addrs.take(i as int + 1), step)) by {
                lemma_grant_fold_snoc(f0, addrs.take(i as int), a_i, step);
            }
            if notify {
                assert(notify_targets(notify, addrs.take(i as int + 1)) =~= notify_targets(
                    notify,
                    addrs.take(i as int),
                ).push(a_i));
                let sa_i = crate::messaging::send_all_step(pre, env.sender@, notify_targets(
                    notify,
                    addrs.take(i as int),
                ), message@);
                crate::messaging::lemma_send_all_frame(pre, env.sender@, notify_targets(notify,
                    addrs.take(i as int)), message@);
                crate::messaging::lemma_send_all_snoc(pre, env.sender@, notify_targets(notify,
                    addrs.take(i as int)), a_i, message@);
                crate::messaging::lemma_send_step_agree(s_i, sa_i, env.sender@, a_i, message@);
                crate::messaging::lemma_send_step_frame(s_i, env.sender@, a_i, message@);
            } else {
                assert(notify_targets(notify, addrs.take(i as int + 1)) =~= notify_targets(
                    notify,
                    addrs.take(i as int),
                ));
            }
            let sa_i1 = crate::messaging::send_all_step(pre, env.sender@, notify_targets(
                notify,
                addrs.take(i as int + 1),
            ), message@);
            crate::messaging::lemma_send_all_frame(pre, env.sender@, notify_targets(notify,
                addrs.take(i as int + 1)), message@);
            assert(store@.mailboxes == sa_i1.mailboxes);
            assert(store@.files =~= pre.files.insert(k, f@));
            assert(store@ == (StoreV { files: pre.files.insert(k, f@), ..sa_i1 }));
        }
        i += 1;
    }
    proof {
        assert(addrs.take(n as int) =~= addrs);
    }
    Ok(HandleResponse::default())
}

/// The contract shared by the two reset operations: the respective
/// grant list is replaced by the empty list in one step, and the
/// accounts it held are notified when asked for.
pub open spec fn reset_op_post(
    pre: StoreV,
    post: StoreV,
    r: Result<HandleResponse, ContractError>,
    sender: Seq<char>,
    path: Seq<char>,
    message: Seq<char>,
    notify: bool,
    read_side: bool,
) -> bool {
    let k = (ns_of_path(pre, path, fb_not_exist()), path);
    match r {
        Ok(resp) => {
            let f0 = pre.files[k];
            let cleared = if read_side {
                FileV { allow_read_list: Seq::empty(), ..f0 }
            } else {
                FileV { allow_write_list: Seq::empty(), ..f0 }
            };
            let listed = if read_side {
                f0.allow_read_list
            } else {
                f0.allow_write_list
            };
            &&& pre.files.contains_key(k)
            &&& can_write_of(f0, sender)
            &&& post == (StoreV {
                files: pre.files.insert(k, cleared),
                ..crate::messaging::send_all_step(
                    pre,
                    sender,
                    notify_targets(notify, listed),
                    message,
                )
            })
            &&& resp.messages@.len() == 0
            &&& resp.data is None
        },
        Err(e) => {
            &&& post == pre
            &&& !(pre.files.contains_key(k) && can_write_of(pre.files[k], sender))
            &&& (e is NotFound <==> !pre.files.contains_key(k))
            &&& (e is Unauthorized <==> (pre.files.contains_key(k) && !can_write_of(
                pre.files[k],
                sender,
            )))
        },
    }
}

/// Replaces the read grant list with the empty list in one step.
pub fn try_reset_read(
    store: &mut Store,
    env: &Env,
    path: String,
    message: String,
    notify: bool,
) -> (r: Result<HandleResponse, ContractError>)
    requires
        old(store).wf(),
    ensures
        final(store).wf(),
        reset_op_post(
            old(store)@,
            final(store)@,
            r,
            env.sender@,
            path@,
            message@,
            notify,
            true,
        ),
{
    let signer = env.sender.clone();
    let namespace = effective_namespace(store, &path, "namespace does not exist!");
    let mut f = bucket_load_file(store, &path, &namespace)?;
    if !f.can_write(signer.clone()) {
        return Err(ContractError::Unauthorized {
            msg: "Unauthorized to reset read list".to_owned(),
        });
    }
    let ghost k = (namespace@, path@);
    let ghost f0 = old(store)@.files[k];
    if notify {
        let address_list = f.allow_read_list.to_vec();
        let n = address_list.len();
        proof {
            assert(f0.allow_read_list.take(0) =~= Seq::<Seq<char>>::empty());
        }
        let mut i: usize = 0;
        while i < n
            invariant
                store.wf(),
                old(store).wf(),
                n == address_list@.len(),
                i <= n,
                n == f0.allow_read_list.len(),
                forall|j: int|
                    0 <= j < n ==> #[trigger] address_list@[j]@ == f0.allow_read_list[j],
                store@ == crate::messaging::send_all_step(
                    old(store)@,
                    env.sender@,
                    f0.allow_read_list.take(i as int),
                    message@,
                ),
            decreases n - i,
        {
            let address = &address_list[i];
            let recipient = address.clone();
            let sent_message = crate::messaging::send_message(store, env, recipient, &message);
            match sent_message {
                Ok(_) => (),
                Err(_) => {
                    proof {
                        assert(false);
                    }
                    return Err(ContractError::NotFound {
                        kind: "recipient does not exist".to_owned(),
                    });
                },
            }
            proof {
                let pre = old(store)@;
                let a_i = f0.allow_read_list[i as int];
                assert(f0.allow_read_list.take(i as int + 1) =~= f0.allow_read_list.take(
                    i as int,
                ).push(a_i));
                crate::messaging::lemma_send_all_frame(pre, env.sender@,
                    f0.allow_read_list.take(i as int), message@);
                crate::messaging::lemma_send_all_snoc(pre, env.sender@,
                    f0.allow_read_list.take(i as int), a_i, message@);
            }
            i += 1;
        }
        proof {
            assert(f0.allow_read_list.take(n as int) =~= f0.allow_read_list);
        }
    }
    f.allow_read_list = OrderedSet::new();
    bucket_save_file(store, &path, f, &namespace);
    proof {
        let pre = old(store)@;
        crate::messaging::lemma_send_all_frame(pre, env.sender@, notify_targets(notify,
            f0.allow_read_list), message@);
        if !notify {
            assert(crate::messaging::send_all_step(pre, env.sender@, notify_targets(notify,
                f0.allow_read_list), message@) == pre);
        }
    }
    Ok(HandleResponse::default())
}

/// Replaces the write grant list with the empty list in one step.
pub fn try_reset_write(
    store: &mut Store,
    env: &Env,
    path: String,
    message: String,
    notify: bool,
) -> (r: Result<HandleResponse, ContractError>)
    requires
        old(store).wf(),
    ensures
        final(store).wf(),
        reset_op_post(
            old(store)@,
            final(store)@,
            r,
            env.sender@,
            path@,
            message@,
            notify,
            false,
        ),
{
    let signer = env.sender.clone();
    let namespace = effective_namespace(store, &path, "namespace does not exist!");
    let mut f = bucket_load_file(store, &path, &namespace)?;
    if !f.can_write(signer.clone()) {
        return Err(ContractError::Unauthorized {
            msg: "Unauthorized to reset write list".to_owned(),
        });
    }
    let ghost k = (namespace@, path@);
    let ghost f0 = old(store)@.files[k];
    if notify {
        let address_list = f.allow_write_list.to_vec();
        let n = address_list.len();
        proof {
            assert(f0.allow_write_list.take(0) =~= Seq::<Seq<char>>::empty());
        }
        let mut i: usize = 0;
        while i < n
            invariant
                store.wf(),
                old(store).wf(),
                n == address_list@.len(),
                i <= n,
                n == f0.allow_write_list.len(),
                forall|j: int|
                    0 <= j < n ==> #[trigger] address_list@[j]@ == f0.allow_write_list[j],
                store@ == crate::messaging::send_all_step(
                    old(store)@,
                    env.sender@,
                    f0.allow_write_list.take(i as int),
                    message@,
                ),
            decreases n - i,
        {
            let address = &address_list[i];
            let recipient = address.clone();
            let sent_message = crate::messaging::send_message(store, env, recipient, &message);
            match sent_message {
                Ok(_) => (),
                Err(_) => {
                    proof {
                        assert(false);
                    }
                    return Err(ContractError::NotFound {
                        kind: "recipient does not exist".to_owned(),
                    });
                },
            }
            proof {
                let pre = old(store)@;
                let a_i = f0.allow_write_list[i as int];
                assert(f0.allow_write_list.take(i as int + 1) =~= f0.allow_write_list.take(
                    i as int,
                ).push(a_i));
                crate::messaging::lemma_send_all_frame(pre, env.sender@,
                    f0.allow_write_list.take(i as int), message@);
                crate::messaging::lemma_send_all_snoc(pre, env.sender@,
                    f0.allow_write_list.take(i as int), a_i, message@);
            }
            i += 1;
        }
        proof {
            assert(f0.allow_write_list.take(n as int) =~= f0.allow_write_list);
        }
    }
    f.allow_write_list = OrderedSet::new();
    bucket_save_file(store, &path, f, &namespace);
    proof {
        let pre = old(store)@;
        crate::messaging::lemma_send_all_frame(pre, env.sender@, notify_targets(notify,
            f0.allow_write_list), message@);
        if !notify {
            assert(crate::messaging::send_all_step(pre, env.sender@, notify_targets(notify,
                f0.allow_write_list), message@) == pre);
        }
    }
    Ok(HandleResponse::default())
}

proof fn lemma_full_namespace_not_empty(adr: Seq<char>, c: int)
    requires
        c >= 0,
    ensures
        full_namespace(adr, c) != "empty"@,
{
    reveal_strlit("empty");
    crate::numstr::lemma_dec_digits_last(c as nat);
    let d = dec_digits(c as nat);
    if adr + d == "empty"@ {
        assert((adr + d).len() == adr.len() + d.len());
        assert((adr + d)[adr.len() + d.len() - 1] == d[d.len() - 1]);
        assert("empty"@[4] == 'y');
        assert(d.last() == crate::numstr::digit_char(((c as nat) % 10) as int));
        assert(crate::numstr::digit_char(((c as nat) % 10) as int) != 'y');
        assert(false);
    }
}

/// The account record after initialization: marked active, and given
/// its generation-zero namespace if it never had one.
pub open spec fn init_address_wallet(s: StoreV, adr: Seq<char>) -> WalletInfoV {
    let w0 = if s.wallets.contains_key(adr) {
        s.wallets[adr]
    } else {
        default_wallet()
    };
    if w0.namespace == "empty"@ {
        WalletInfoV { init: true, namespace: adr + dec_digits(0), ..w0 }
    } else {
        WalletInfoV { init: true, ..w0 }
    }
}

/// Whether an account already holds its root entry under its active
/// namespace, which is what initialization treats as "already there".
pub open spec fn already_initialized(s: StoreV, adr: Seq<char>) -> bool {
    let ns = if s.wallets.contains_key(adr) {
        s.wallets[adr].namespace
    } else {
        fb_not_exist()
    };
    s.files.contains_key((ns, adr + "/"@))
}

/// What initialization writes before the token is issued: the account
/// record, the root entry of the active namespace, and a mailbox with
/// its sentinel if none exists yet.
pub open spec fn init_address_state(s: StoreV, adr: Seq<char>, contents: Seq<char>) -> StoreV {
    let s1 = StoreV { wallets: s.wallets.insert(adr, init_address_wallet(s, adr)), ..s };
    let s2 = create_file_step(s1, adr, adr + "/"@, contents);
    let k = crate::messaging::mailbox_key(s2, adr);
    if s2.mailboxes.contains_key(k) {
        s2
    } else {
        StoreV {
            mailboxes: s2.mailboxes.insert(k, seq![crate::messaging::placeholder_for(adr)]),
            ..s2
        }
    }
}

/// The contract of account initialization.
pub open spec fn init_address_post(
    pre: StoreV,
    post: StoreV,
    r: Result<HandleResponse, ContractError>,
    adr: Seq<char>,
    height: u64,
    time: u64,
    contents: Seq<char>,
    entropy: Seq<char>,
) -> bool {
    if already_initialized(pre, adr) {
        &&& post == pre
        &&& r matches Err(e) && e is AlreadyInitialized
    } else if pre.config is None {
        &&& post == init_address_state(pre, adr, contents)
        &&& r matches Err(e) && e is NotFound
    } else {
        let key = ViewingKey::key_of(pre.config.unwrap().prng_seed, height, time, adr, entropy);
        &&& post == (StoreV {
            viewing_keys: init_address_state(pre, adr, contents).viewing_keys.insert(
                adr,
                ViewingKey::hash_of(key),
            ),
            ..init_address_state(pre, adr, contents)
        })
        &&& r matches Ok(resp) && resp.messages@.len() == 0 && (resp.data matches Some(
            HandleAnswer::CreateViewingKey { key: ref vk },
        ) && vk@ == key)
    }
}

/// Initializes the caller's account: activates its record, creates the
/// root entry of its active namespace, gives it a mailbox if none
/// exists, and issues a fresh viewing key.
pub fn try_init(store: &mut Store, env: &Env, contents: String, entropy: String) -> (r: Result<
    HandleResponse,
    ContractError,
>)
    requires
        old(store).wf(),
    ensures
        final(store).wf(),
        init_address_post(
            old(store)@,
            final(store)@,
            r,
            env.sender@,
            env.block_height,
            env.block_time,
            contents@,
            entropy@,
        ),
{
    let adr = env.sender.clone();
    let mut path = adr.clone();
    path.append("/");
    let namespace = match get_namespace(store, &adr) {
        Ok(ns) => ns,
        Err(_) => "namespace does not exist!".to_owned(),
    };
    let already_init = file_exists(store, &path, &namespace);
    if already_init {
        return Err(ContractError::AlreadyInitialized);
    }
    let loaded_wallet: Option<WalletInfo> = match store.wallets.get(&adr) {
        Some(w) => Some(w.clone()),
        None => None,
    };
    let mut returned_wallet = return_wallet(loaded_wallet);
    if returned_wallet.namespace.eq(&"empty".to_owned()) {
        returned_wallet.init = true;
        let mut new_namespace = adr.clone();
        new_namespace.append(dec_string(0).as_str());
        returned_wallet.namespace = new_namespace;
    } else {
        returned_wallet.init = true;
    }
    store.wallets.insert(adr.clone(), returned_wallet);
    proof {
        let pre = old(store)@;
        let adr_v = env.sender@;
        let w1 = init_address_wallet(pre, adr_v);
        if pre.wallets.contains_key(adr_v) {
            let w0 = pre.wallets[adr_v];
            assert(wallet_record_wf(w0, adr_v));
            lemma_full_namespace_not_empty(adr_v, w0.counter);
            assert(w0.namespace != "empty"@);
            assert(wallet_record_wf(w1, adr_v));
        } else {
            assert(w1.namespace == adr_v + dec_digits(0));
            assert(wallet_record_wf(w1, adr_v));
        }
        assert(store@.wallets =~= pre.wallets.insert(adr_v, w1));
        assert(crate::store::wallets_all_wf(store@.wallets)) by {
            assert forall|a: Seq<char>| store@.wallets.contains_key(a) implies wallet_record_wf(
                store@.wallets[a],
                a,
            ) by {
                if a != adr_v {
                    assert(pre.wallets.contains_key(a));
                }
            }
        }
    }
    create_file(store, adr.clone(), path.clone(), contents);
    let collection_exists = crate::messaging::collection_exist(store, &adr);
    if !collection_exists {
        let dummy_message = crate::messaging::Message::new(
            "Placeholder contents created by you".to_owned(),
            env.sender.clone(),
        );
        let _storage_space = crate::messaging::create_empty_collection(store, &adr);
        let _appending_message = crate::messaging::append_message(store, &dummy_message, &adr);
        proof {
            let s2 = create_file_step(
                StoreV {
                    wallets: old(store)@.wallets.insert(
                        env.sender@,
                        init_address_wallet(old(store)@, env.sender@),
                    ),
                    ..old(store)@
                },
                env.sender@,
                env.sender@ + "/"@,
                contents@,
            );
            let k = crate::messaging::mailbox_key(s2, env.sender@);
            assert(Seq::<crate::messaging::MessageV>::empty().push(
                crate::messaging::placeholder_for(env.sender@),
            ) =~= seq![crate::messaging::placeholder_for(env.sender@)]);
            assert(store@.mailboxes =~= s2.mailboxes.insert(k, seq![
                crate::messaging::placeholder_for(env.sender@),
            ]));
        }
    }
    proof {
        assert(store@ == init_address_state(old(store)@, env.sender@, contents@));
    }
    let config: State = match &store.config {
        Some(c) => c.clone(),
        None => {
            return Err(ContractError::NotFound { kind: "State".to_owned() });
        },
    };
    let prng_seed = config.prng_seed;
    let key = ViewingKey::new(env, prng_seed.as_slice(), entropy.as_str());
    write_viewing_key(store, &env.sender, &key);
    Ok(HandleResponse {
        messages: Vec::new(),
        data: Some(HandleAnswer::CreateViewingKey { key }),
    })
}

/// The contract of token issuance: the stored hash is replaced and the
/// token itself is returned to the caller alone.
pub open spec fn create_viewing_key_post(
    pre: StoreV,
    post: StoreV,
    r: Result<HandleResponse, ContractError>,
    adr: Seq<char>,
    height: u64,
    time: u64,
    entropy: Seq<char>,
) -> bool {
    match r {
        Ok(resp) => {
            let key = ViewingKey::key_of(pre.config.unwrap().prng_seed, height, time, adr, entropy);
            &&& pre.config is Some
            &&& post == (StoreV {
                viewing_keys: pre.viewing_keys.insert(adr, ViewingKey::hash_of(key)),
                ..pre
            })
            &&& resp.messages@.len() == 0
            &&& (resp.data matches Some(HandleAnswer::CreateViewingKey { key: ref vk }) && vk@
                == key)
        },
        Err(e) => pre.config is None && post == pre && e is NotFound,
    }
}

/// Issues a fresh viewing key for the caller, replacing any prior one.
pub fn try_create_viewing_key(store: &mut Store, env: &Env, entropy: String) -> (r: Result<
    HandleResponse,
    ContractError,
>)
    requires
        old(store).wf(),
    ensures
        final(store).wf(),
        create_viewing_key_post(
            old(store)@,
            final(store)@,
            r,
            env.sender@,
            env.block_height,
            env.block_time,
            entropy@,
        ),
{
    let config: State = match &store.config {
        Some(c) => c.clone(),
        None => {
            return Err(ContractError::NotFound { kind: "State".to_owned() });
        },
    };
    let prng_seed = config.prng_seed;
    let key = ViewingKey::new(env, prng_seed.as_slice(), entropy.as_str());
    write_viewing_key(store, &env.sender, &key);
    Ok(HandleResponse {
        messages: Vec::new(),
        data: Some(HandleAnswer::CreateViewingKey { key }),
    })
}

#[allow(dead_code)]
pub enum MultiVerdict {
    Done,
    Missing,
    Refused,
}

/// Whether one creation would succeed.
pub open spec fn create_ok(s: StoreV, ha: Seq<char>, path: Seq<char>) -> bool {
    create_parent_exists(s, path) && create_authorized(s, ha, path)
}

/// The state a batch creation leaves: each item applied in order, the
/// batch cut short at the first failure with the earlier items kept.
pub open spec fn create_multi_state(
    s: StoreV,
    ha: Seq<char>,
    cs: Seq<Seq<char>>,
    ps: Seq<Seq<char>>,
    ks: Seq<Seq<char>>,
    sks: Seq<Seq<char>>,
) -> StoreV
    decreases cs.len(),
{
    if cs.len() == 0 {
        s
    } else if !create_ok(s, ha, ps.first()) {
        s
    } else {
        create_multi_state(
            do_create_file_step(s, ha, cs.first(), ps.first(), ks.first(), sks.first()),
            ha,
            cs.drop_first(),
            ps.drop_first(),
            ks.drop_first(),
            sks.drop_first(),
        )
    }
}

/// How a batch creation resolves: done, or the kind of the first
/// failure.
pub open spec fn create_multi_verdict(
    s: StoreV,
    ha: Seq<char>,
    cs: Seq<Seq<char>>,
    ps: Seq<Seq<char>>,
    ks: Seq<Seq<char>>,
    sks: Seq<Seq<char>>,
) -> MultiVerdict
    decreases cs.len(),
{
    if cs.len() == 0 {
        MultiVerdict::Done
    } else if !create_parent_exists(s, ps.first()) {
        MultiVerdict::Missing
    } else if !create_authorized(s, ha, ps.first()) {
        MultiVerdict::Refused
    } else {
        create_multi_verdict(
            do_create_file_step(s, ha, cs.first(), ps.first(), ks.first(), sks.first()),
            ha,
            cs.drop_first(),
            ps.drop_first(),
            ks.drop_first(),
            sks.drop_first(),
        )
    }
}

/// The contract of a batch creation.
pub open spec fn create_multi_post(
    pre: StoreV,
    post: StoreV,
    r: Result<HandleResponse, ContractError>,
    ha: Seq<char>,
    cs: Seq<Seq<char>>,
    ps: Seq<Seq<char>>,
    ks: Seq<Seq<char>>,
    sks: Seq<Seq<char>>,
) -> bool {
    &&& post == create_multi_state(pre, ha, cs, ps, ks, sks)
    &&& match create_multi_verdict(pre, ha, cs, ps, ks, sks) {
        MultiVerdict::Done => r matches Ok(resp) && resp.messages@.len() == 0
            && resp.data is None,
        MultiVerdict::Missing => r matches Err(e) && e is NotFound,
        MultiVerdict::Refused => r matches Err(e) && e is Unauthorized,
    }
}

/// Creates a list of entries; a failure stops the batch but earlier
/// creations are not rolled back.
pub fn try_create_multi_files(
    store: &mut Store,
    env: &Env,
    contents_list: Vec<String>,
    path_list: Vec<String>,
    pkey_list: Vec<String>,
    skey_list: Vec<String>,
) -> (r: Result<HandleResponse, ContractError>)
    requires
        old(store).wf(),
        path_list@.len() >= contents_list@.len(),
        pkey_list@.len() >= contents_list@.len(),
        skey_list@.len() >= contents_list@.len(),
    ensures
        final(store).wf(),
        create_multi_post(
            old(store)@,
            final(store)@,
            r,
            env.sender@,
            contents_list.deep_view(),
            path_list.deep_view(),
            pkey_list.deep_view(),
            skey_list.deep_view(),
        ),
{
    let ha = env.sender.clone();
    let ghost cs = contents_list.deep_view();
    let ghost ps = path_list.deep_view();
    let ghost ks = pkey_list.deep_view();
    let ghost sks = skey_list.deep_view();
    let n = contents_list.len();
    proof {
        assert(cs.skip(0) =~= cs);
        assert(ps.skip(0) =~= ps);
        assert(ks.skip(0) =~= ks);
        assert(sks.skip(0) =~= sks);
    }
    let mut i: usize = 0;
    while i < n
        invariant
            store.wf(),
            n == contents_list@.len(),
            i <= n,
            ha@ == env.sender@,
            cs == contents_list.deep_view(),
            ps == path_list.deep_view(),
            ks == pkey_list.deep_view(),
            sks == skey_list.deep_view(),
            ps.len() >= n,
            ks.len() >= n,
            sks.len() >= n,
            create_multi_state(old(store)@, env.sender@, cs, ps, ks, sks) == create_multi_state(
                store@,
                env.sender@,
                cs.skip(i as int),
                ps.skip(i as int),
                ks.skip(i as int),
                sks.skip(i as int),
            ),
            create_multi_verdict(old(store)@, env.sender@, cs, ps, ks, sks)
                == create_multi_verdict(
                store@,
                env.sender@,
                cs.skip(i as int),
                ps.skip(i as int),
                ks.skip(i as int),
                sks.skip(i as int),
            ),
        decreases n - i,
    {
        let file_contents = contents_list[i].clone();
        let path = path_list[i].clone();
        let pkey = pkey_list[i].clone();
        let skey = skey_list[i].clone();
        let res = do_create_file(store, ha.clone(), file_contents, path, pkey, skey);
        proof {
            assert(cs.skip(i as int).first() == cs[i as int]);
            assert(ps.skip(i as int).first() == ps[i as int]);
            assert(ks.skip(i as int).first() == ks[i as int]);
            assert(sks.skip(i as int).first() == sks[i as int]);
            assert(cs.skip(i as int).drop_first() =~= cs.skip(i as int + 1));
            assert(ps.skip(i as int).drop_first() =~= ps.skip(i as int + 1));
            assert(ks.skip(i as int).drop_first() =~= ks.skip(i as int + 1));
            assert(sks.skip(i as int).drop_first() =~= sks.skip(i as int + 1));
        }
        match res {
            Ok(_) => {},
            Err(e) => {
                return Err(e);
            },
        }
        i += 1;
    }
    proof {
        assert(cs.skip(n as int) =~= Seq::<Seq<char>>::empty());
    }
    Ok(HandleResponse::default())
}

/// The state a batch removal leaves.
pub open spec fn remove_multi_state(s: StoreV, sender: Seq<char>, ps: Seq<Seq<char>>) -> StoreV
    decreases ps.len(),
{
    if ps.len() == 0 {
        s
    } else if !(remove_exists(s, ps.first()) && remove_owned(s, sender, ps.first())) {
        s
    } else {
        remove_multi_state(remove_file_step(s, ps.first()), sender, ps.drop_first())
    }
}

/// How a batch removal resolves.
pub open spec fn remove_multi_verdict(s: StoreV, sender: Seq<char>, ps: Seq<Seq<char>>) -> MultiVerdict
    decreases ps.len(),
{
    if ps.len() == 0 {
        MultiVerdict::Done
    } else if !remove_exists(s, ps.first()) {
        MultiVerdict::Missing
    } else if !remove_owned(s, sender, ps.first()) {
        MultiVerdict::Refused
    } else {
        remove_multi_verdict(remove_file_step(s, ps.first()), sender, ps.drop_first())
    }
}

/// The contract of a batch removal.
pub open spec fn remove_multi_post(
    pre: StoreV,
    post: StoreV,
    r: Result<HandleResponse, ContractError>,
    sender: Seq<char>,
    ps: Seq<Seq<char>>,
) -> bool {
    &&& post == remove_multi_state(pre, sender, ps)
    &&& match remove_multi_verdict(pre, sender, ps) {
        MultiVerdict::Done => r matches Ok(resp) && resp.messages@.len() == 0
            && resp.data is None,
        MultiVerdict::Missing => r matches Err(e) && e is NotFound,
        MultiVerdict::Refused => r matches Err(e) && e is Unauthorized,
    }
}

/// Removes a list of entries; a failure stops the batch but earlier
/// removals are not rolled back.
pub fn try_remove_multi_files(store: &mut Store, env: &Env, path_list: Vec<String>) -> (r: Result<
    HandleResponse,
    ContractError,
>)
    requires
        old(store).wf(),
    ensures
        final(store).wf(),
        remove_multi_post(old(store)@, final(store)@, r, env.sender@, path_list.deep_view()),
{
    let ghost ps = path_list.deep_view();
    let n = path_list.len();
    proof {
        assert(ps.skip(0) =~= ps);
    }
    let mut i: usize = 0;
    while i < n
        invariant
            store.wf(),
            n == path_list@.len(),
            i <= n,
            ps == path_list.deep_view(),
            remove_multi_state(old(store)@, env.sender@, ps) == remove_multi_state(
                store@,
                env.sender@,
                ps.skip(i as int),
            ),
            remove_multi_verdict(old(store)@, env.sender@, ps) == remove_multi_verdict(
                store@,
                env.sender@,
                ps.skip(i as int),
            ),
        decreases n - i,
    {
        let path = path_list[i].clone();
        let res = try_remove_file(store, env, path);
        proof {
            assert(ps.skip(i as int).first() == ps[i as int]);
            assert(ps.skip(i as int).drop_first() =~= ps.skip(i as int + 1));
        }
        match res {
            Ok(_) => {},
            Err(e) => {
                return Err(e);
            },
        }
        i += 1;
    }
    proof {
        assert(ps.skip(n as int) =~= Seq::<Seq<char>>::empty());
    }
    Ok(HandleResponse::default())
}

/// The state a batch move leaves: moves applied in order, the batch cut
/// short at the first failure with that failure's partial state kept.
pub open spec fn move_multi_state(
    s: StoreV,
    sender: Seq<char>,
    olds: Seq<Seq<char>>,
    news: Seq<Seq<char>>,
) -> StoreV
    decreases olds.len(),
{
    if olds.len() == 0 {
        s
    } else {
        let st = move_state(s, sender, olds.first(), news.first());
        if move_verdict(s, sender, olds.first(), news.first()) is Moved {
            move_multi_state(st, sender, olds.drop_first(), news.drop_first())
        } else {
            st
        }
    }
}

/// How a batch move resolves: the verdict of the first move that did
/// not go through, or fully moved.
pub open spec fn move_multi_verdict(
    s: StoreV,
    sender: Seq<char>,
    olds: Seq<Seq<char>>,
    news: Seq<Seq<char>>,
) -> MoveVerdict
    decreases olds.len(),
{
    if olds.len() == 0 {
        MoveVerdict::Moved
    } else {
        let v = move_verdict(s, sender, olds.first(), news.first());
        if v is Moved {
            move_multi_verdict(
                move_state(s, sender, olds.first(), news.first()),
                sender,
                olds.drop_first(),
                news.drop_first(),
            )
        } else {
            v
        }
    }
}

/// The contract of a batch move.
pub open spec fn move_multi_post(
    pre: StoreV,
    post: StoreV,
    r: Result<HandleResponse, ContractError>,
    sender: Seq<char>,
    olds: Seq<Seq<char>>,
    news: Seq<Seq<char>>,
) -> bool {
    &&& post == move_multi_state(pre, sender, olds, news)
    &&& match move_multi_verdict(pre, sender, olds, news) {
        MoveVerdict::Moved => r matches Ok(resp) && resp.messages@.len() == 0
            && resp.data is None,
        MoveVerdict::SourceMissing => r matches Err(e) && e is NotFound,
        MoveVerdict::NotOwner => r matches Err(e) && e is Unauthorized,
        MoveVerdict::DestMissing => r matches Err(e) && e is NotFound,
        MoveVerdict::DestRefused => r matches Err(e) && e is Unauthorized,
        MoveVerdict::RemoveFailed => r matches Err(e) && e is InvalidState,
    }
}

/// Moves a list of entries; a failure stops the batch but earlier
/// moves are not rolled back.
pub fn try_move_multi_files(
    store: &mut Store,
    env: &Env,
    old_path_list: Vec<String>,
    new_path_list: Vec<String>,
) -> (r: Result<HandleResponse, ContractError>)
    requires
        old(store).wf(),
        new_path_list@.len() >= old_path_list@.len(),
    ensures
        final(store).wf(),
        move_multi_post(
            old(store)@,
            final(store)@,
            r,
            env.sender@,
            old_path_list.deep_view(),
            new_path_list.deep_view(),
        ),
{
    let ghost olds = old_path_list.deep_view();
    let ghost news = new_path_list.deep_view();
    let n = old_path_list.len();
    proof {
        assert(olds.skip(0) =~= olds);
        assert(news.skip(0) =~= news);
    }
    let mut i: usize = 0;
    while i < n
        invariant
            store.wf(),
            n == old_path_list@.len(),
            i <= n,
            olds == old_path_list.deep_view(),
            news == new_path_list.deep_view(),
            news.len() >= n,
            move_multi_state(old(store)@, env.sender@, olds, news) == move_multi_state(
                store@,
                env.sender@,
                olds.skip(i as int),
                news.skip(i as int),
            ),
            move_multi_verdict(old(store)@, env.sender@, olds, news) == move_multi_verdict(
                store@,
                env.sender@,
                olds.skip(i as int),
                news.skip(i as int),
            ),
        decreases n - i,
    {
        let old_path = old_path_list[i].clone();
        let new_path = new_path_list[i].clone();
        let res = try_move_file(store, env, old_path, new_path);
        proof {
            assert(olds.skip(i as int).first() == olds[i as int]);
            assert(news.skip(i as int).first() == news[i as int]);
            assert(olds.skip(i as int).drop_first() =~= olds.skip(i as int + 1));
            assert(news.skip(i as int).drop_first() =~= news.skip(i as int + 1));
        }
        match res {
            Ok(_) => {},
            Err(e) => {
                return Err(e);
            },
        }
        i += 1;
    }
    proof {
        assert(olds.skip(n as int) =~= Seq::<Seq<char>>::empty());
    }
    Ok(HandleResponse::default())
}

/// How often an address occurs in a grant list.
pub open spec fn count_occ(s: Seq<Seq<char>>, a: Seq<char>) -> nat
    decreases s.len(),
{
    if s.len() == 0 {
        0
    } else {
        count_occ(s.drop_last(), a) + (if s.last() == a {
            1nat
        } else {
            0nat
        })
    }
}

proof fn lemma_count_occ_absent(s: Seq<Seq<char>>, a: Seq<char>)
    requires
        !s.contains(a),
    ensures
        count_occ(s, a) == 0,
    decreases s.len(),
{
    if s.len() > 0 {
        assert(s.last() != a);
        assert(!s.drop_last().contains(a)) by {
            if s.drop_last().contains(a) {
                let i = choose|i: int| 0 <= i < s.drop_last().len() && s.drop_last()[i] == a;
                assert(s[i] == a);
            }
        }
        lemma_count_occ_absent(s.drop_last(), a);
    }
}

proof fn lemma_count_occ_unique(s: Seq<Seq<char>>, a: Seq<char>)
    requires
        s.contains(a),
        forall|i: int, j: int| 0 <= i < j < s.len() ==> s[i] != s[j],
    ensures
        count_occ(s, a) == 1,
    decreases s.len(),
{
    if s.last() == a {
        assert(!s.drop_last().contains(a)) by {
            if s.drop_last().contains(a) {
                let i = choose|i: int| 0 <= i < s.drop_last().len() && s.drop_last()[i] == a;
                assert(s[i] == a && s[s.len() - 1] == a && i < s.len() - 1);
            }
        }
        lemma_count_occ_absent(s.drop_last(), a);
    } else {
        let i = choose|i: int| 0 <= i < s.len() && s[i] == a;
        assert(s.drop_last()[i] == a);
        assert(s.drop_last().contains(a));
        lemma_count_occ_unique(s.drop_last(), a);
    }
}

/// Law (ownership supremacy): the owner of an entry can always read
/// and write it, whatever the grant lists and the public flag hold.
pub proof fn lemma_owner_supremacy(f: FileV)
    ensures
        can_read_of(f, f.owner),
        can_write_of(f, f.owner),
{
}

/// Law (grant idempotence): granting read access to the same account
/// twice leaves the read grant list with exactly one occurrence of it.
pub proof fn lemma_grant_idempotent(f: FileV, a: Seq<char>)
    requires
        file_wf(f),
        f.owner != a,
    ensures
        count_occ(apply_allow_read(apply_allow_read(f, a), a).allow_read_list, a) == 1,
{
    let f1 = apply_allow_read(f, a);
    if f.allow_read_list.contains(a) {
        lemma_count_occ_unique(f.allow_read_list, a);
        assert(f1.allow_read_list == f.allow_read_list);
        assert(apply_allow_read(f1, a).allow_read_list == f.allow_read_list);
    } else {
        lemma_count_occ_absent(f.allow_read_list, a);
        let l1 = f.allow_read_list.push(a);
        assert(f1.allow_read_list == l1);
        assert(l1.last() == a);
        assert(l1.drop_last() =~= f.allow_read_list);
        assert(count_occ(l1, a) == 1);
        assert(l1.contains(a)) by {
            assert(l1[l1.len() - 1] == a);
        }
        assert(apply_allow_read(f1, a).allow_read_list == l1);
    }
}

/// Law (grant idempotence, at the operation level): the grant
/// operation applied twice to the same singleton account list leaves
/// the read grant list with exactly one occurrence of that account.
pub proof fn lemma_grant_idempotent_listed(f: FileV, a: Seq<char>)
    requires
        file_wf(f),
        f.owner != a,
    ensures
        ({
            let step = |fv: FileV, x: Seq<char>| apply_allow_read(fv, x);
            count_occ(
                grant_fold(grant_fold(f, seq![a], step), seq![a], step).allow_read_list,
                a,
            ) == 1
        }),
{
    let step = |fv: FileV, x: Seq<char>| apply_allow_read(fv, x);
    let l = seq![a];
    assert(l.len() == 1);
    assert(l.first() == a);
    assert(l.drop_first() =~= Seq::<Seq<char>>::empty());
    assert(grant_fold(f, l, step) == grant_fold(step(f, a), l.drop_first(), step));
    assert(grant_fold(step(f, a), l.drop_first(), step) == step(f, a));
    assert(step(f, a) == apply_allow_read(f, a));
    let f1 = apply_allow_read(f, a);
    assert(grant_fold(f1, l, step) == grant_fold(step(f1, a), l.drop_first(), step));
    assert(grant_fold(step(f1, a), l.drop_first(), step) == step(f1, a));
    lemma_grant_idempotent(f, a);
}

/// Law (revocation rotation): after revocation the account's namespace
/// differs from the namespace of every generation up to the old one, so
/// no entry stored under an earlier generation of this account is
/// reachable under the new namespace; the entries themselves stay in
/// place untouched.
pub proof fn lemma_revocation_rotation(pre: StoreV, adr: Seq<char>, c_prev: int)
    requires
        pre.wallets.contains_key(adr),
        wallet_record_wf(pre.wallets[adr], adr),
        0 <= c_prev <= pre.wallets[adr].counter,
    ensures
        ({
            let post = forget_step(pre, adr);
            &&& post.wallets[adr].namespace != full_namespace(adr, c_prev)
            &&& post.files == pre.files
            &&& forall|p: Seq<char>| #[trigger]
                pre.files.contains_key((full_namespace(adr, c_prev), p))
                    ==> pre.files[(full_namespace(adr, c_prev), p)] == post.files[
                    (full_namespace(adr, c_prev), p)
                ] && (full_namespace(adr, c_prev), p) != (post.wallets[adr].namespace, p)
        }),
{
    let post = forget_step(pre, adr);
    let c_new = pre.wallets[adr].counter + 1;
    assert(post.wallets[adr].namespace == full_namespace(adr, c_new));
    crate::numstr::lemma_dec_digits_injective(c_new as nat, c_prev as nat);
    crate::numstr::lemma_concat_right_injective(
        adr,
        dec_digits(c_new as nat),
        dec_digits(c_prev as nat),
    );
}

/// Law (move semantics): after a successful move of an entry between
/// two distinct paths of accounts with active records, the source path
/// resolves to nothing and the destination holds the original contents
/// under the original owner.
pub proof fn lemma_move_semantics(
    pre: StoreV,
    sender: Seq<char>,
    old_path: Seq<char>,
    new_path: Seq<char>,
)
    requires
        move_verdict(pre, sender, old_path, new_path) is Moved,
        old_path != new_path,
        pre.wallets.contains_key(first_segment_of(old_path)),
    ensures
        ({
            let post = move_state(pre, sender, old_path, new_path);
            let src = move_src_key(pre, old_path);
            let dst = (ns_of_path(pre, new_path, fb_not_exist()), new_path);
            &&& !post.files.contains_key((ns_of_path(post, old_path, fb_not_found()), old_path))
            &&& post.files.contains_key((ns_of_path(post, new_path, fb_not_exist()), new_path))
            &&& post.files[dst].contents == pre.files[src].contents
            &&& post.files[dst].owner == pre.files[src].owner
        }),
{
    let post = move_state(pre, sender, old_path, new_path);
    let s2 = move_created(pre, sender, old_path, new_path);
    let src = move_src_key(pre, old_path);
    let dst = (ns_of_path(pre, new_path, fb_not_exist()), new_path);
    assert(s2.wallets == pre.wallets);
    assert(ns_of_path(s2, old_path, fb_not_exist()) == ns_of_path(pre, old_path, fb_not_found()));
    assert(post.files == s2.files.remove(remove_key(s2, old_path)));
    assert(remove_key(s2, old_path) == (ns_of_path(pre, old_path, fb_not_found()), old_path));
    assert(dst != remove_key(s2, old_path));
    assert(s2.files == pre.files.insert(dst, new_file(sender, pre.files[src].contents)));
    assert(pre.files[src].owner == sender);
    assert(post.wallets == pre.wallets);
    assert(ns_of_path(post, old_path, fb_not_found()) == ns_of_path(pre, old_path, fb_not_found()));
    assert(ns_of_path(post, new_path, fb_not_exist()) == ns_of_path(pre, new_path, fb_not_exist()));
}

} // verus!
