//! Remote file browsing: the entry model shared with the bindings, the
//! ordering and filtering of a listing, and the multi-selection.

use vstd::prelude::*;
use crate::ffi::{FfiFsEntry, FfiFsEntryType};
use crate::strmap::StrMap;
use vstd::std_specs::convert::FromSpecImpl;

verus! {

/// Kind of a filesystem entry.
#[derive(Debug, Clone, Copy, PartialEq, Eq, Structural)]
pub enum FsEntryType {
    File,
    Directory,
    Symlink,
    Unknown,
}

/// A filesystem entry of a listing.
#[derive(Debug, Clone)]
pub struct FsEntry {
    pub name: String,
    pub path: String,
    pub entry_type: FsEntryType,
    pub size: u64,
    pub modified: Option<u64>,
}

impl From<FsEntryType> for FfiFsEntryType {
    fn from(t: FsEntryType) -> (r: FfiFsEntryType) {
        match t {
            FsEntryType::File => FfiFsEntryType::File,
            FsEntryType::Directory => FfiFsEntryType::Directory,
            FsEntryType::Symlink => FfiFsEntryType::Symlink,
            FsEntryType::Unknown => FfiFsEntryType::Unknown,
        }
    }
}

impl FromSpecImpl<FsEntryType> for FfiFsEntryType {
    open spec fn obeys_from_spec() -> bool {
        true
    }

    open spec fn from_spec(t: FsEntryType) -> FfiFsEntryType {
        ffi_entry_type_of(t)
    }
}

/// The binding kind for a kind.
pub open spec fn ffi_entry_type_of(t: FsEntryType) -> FfiFsEntryType {
    match t {
        FsEntryType::File => FfiFsEntryType::File,
        FsEntryType::Directory => FfiFsEntryType::Directory,
        FsEntryType::Symlink => FfiFsEntryType::Symlink,
        FsEntryType::Unknown => FfiFsEntryType::Unknown,
    }
}

/// The kind for a binding kind.
pub open spec fn entry_type_of_ffi(t: FfiFsEntryType) -> FsEntryType {
    match t {
        FfiFsEntryType::File => FsEntryType::File,
        FfiFsEntryType::Directory => FsEntryType::Directory,
        FfiFsEntryType::Symlink => FsEntryType::Symlink,
        FfiFsEntryType::Unknown => FsEntryType::Unknown,
    }
}

impl From<FfiFsEntryType> for FsEntryType {
    fn from(t: FfiFsEntryType) -> (r: FsEntryType) {
        match t {
            FfiFsEntryType::File => FsEntryType::File,
            FfiFsEntryType::Directory => FsEntryType::Directory,
            FfiFsEntryType::Symlink => FsEntryType::Symlink,
            FfiFsEntryType::Unknown => FsEntryType::Unknown,
        }
    }
}

impl FromSpecImpl<FfiFsEntryType> for FsEntryType {
    open spec fn obeys_from_spec() -> bool {
        true
    }

    open spec fn from_spec(t: FfiFsEntryType) -> FsEntryType {
        entry_type_of_ffi(t)
    }
}

impl From<FsEntry> for FfiFsEntry {
    fn from(e: FsEntry) -> (r: FfiFsEntry) {
        FfiFsEntry {
            name: e.name,
            path: e.path,
            entry_type: FfiFsEntryType::from(e.entry_type),
            size: e.size,
            modified: e.modified,
        }
    }
}

impl FromSpecImpl<FsEntry> for FfiFsEntry {
    open spec fn obeys_from_spec() -> bool {
        true
    }

    open spec fn from_spec(e: FsEntry) -> FfiFsEntry {
        FfiFsEntry {
            name: e.name,
            path: e.path,
            entry_type: ffi_entry_type_of(e.entry_type),
            size: e.size,
            modified: e.modified,
        }
    }
}

impl From<FfiFsEntry> for FsEntry {
    fn from(e: FfiFsEntry) -> (r: FsEntry) {
        FsEntry {
            name: e.name,
            path: e.path,
            entry_type: FsEntryType::from(e.entry_type),
            size: e.size,
            modified: e.modified,
        }
    }
}

impl FromSpecImpl<FfiFsEntry> for FsEntry {
    open spec fn obeys_from_spec() -> bool {
        true
    }

    open spec fn from_spec(e: FfiFsEntry) -> FsEntry {
        FsEntry {
            name: e.name,
            path: e.path,
            entry_type: entry_type_of_ffi(e.entry_type),
            size: e.size,
            modified: e.modified,
        }
    }
}

/// A kind survives the trip through the bindings and back.
pub proof fn lemma_entry_type_round_trip(t: FsEntryType)
    ensures
        entry_type_of_ffi(ffi_entry_type_of(t)) == t,
{
}

/// The text lowercased by Unicode rules (std `str::to_lowercase`).
pub uninterp spec fn lowercase(s: Seq<char>) -> Seq<char>;

/// Lowercases text (std `str::to_lowercase`); the result is named
/// `lowercase` of the text.
#[verifier::external_body]
pub(crate) fn to_lowercase(s: &str) -> (r: String)
    ensures
        r@ == lowercase(s@),
{
    s.to_lowercase()
}

/// A copy of an entry.
pub fn copy_entry(e: &FsEntry) -> (r: FsEntry)
    ensures
        r == *e,
{
    FsEntry {
        name: e.name.clone(),
        path: e.path.clone(),
        entry_type: e.entry_type,
        size: e.size,
        modified: e.modified,
    }
}

/// Keys a listing can be sorted by.
#[derive(Debug, Clone, Copy, PartialEq, Eq, Structural)]
pub enum SortKey {
    Name,
    Size,
    Date,
}

/// The label shown for a sort key.
pub open spec fn sort_key_label(k: SortKey) -> Seq<char> {
    match k {
        SortKey::Name => "Name"@,
        SortKey::Size => "Size"@,
        SortKey::Date => "Date"@,
    }
}

/// The sort key with a given label.
pub open spec fn sort_key_of_label(s: Seq<char>) -> Option<SortKey> {
    if s == "Name"@ {
        Some(SortKey::Name)
    } else if s == "Size"@ {
        Some(SortKey::Size)
    } else if s == "Date"@ {
        Some(SortKey::Date)
    } else {
        None
    }
}

impl SortKey {
    /// Every sort key, in menu order.
    pub fn all() -> (v: [SortKey; 3])
        ensures
            v@ == seq![SortKey::Name, SortKey::Size, SortKey::Date],
    {
        [SortKey::Name, SortKey::Size, SortKey::Date]
    }

    /// The label shown for the key.
    pub fn label(self) -> (s: &'static str)
        ensures
            s@ == sort_key_label(self),
    {
        match self {
            SortKey::Name => "Name",
            SortKey::Size => "Size",
            SortKey::Date => "Date",
        }
    }

    /// The key with the given label.
    pub fn from_label(s: &str) -> (r: Option<SortKey>)
        ensures
            r == sort_key_of_label(s@),
    {
        let t = String::from_str(s);
        if t == String::from_str("Name") {
            Some(SortKey::Name)
        } else if t == String::from_str("Size") {
            Some(SortKey::Size)
        } else if t == String::from_str("Date") {
            Some(SortKey::Date)
        } else {
            None
        }
    }
}

/// Each key's label names it.
pub proof fn lemma_sort_key_label_round_trip(k: SortKey)
    ensures
        sort_key_of_label(sort_key_label(k)) == Some(k),
{
    reveal_strlit("Name");
    reveal_strlit("Size");
    reveal_strlit("Date");
    assert("Name"@[0] != "Size"@[0] && "Name"@[0] != "Date"@[0] && "Size"@[0] != "Date"@[0]);
}

/// The outcome of comparing two values.
#[derive(Debug, Clone, Copy, PartialEq, Eq, Structural)]
pub enum Order {
    Less,
    Equal,
    Greater,
}

/// Lexicographic order of character sequences (the order of `String`s,
/// since UTF-8 preserves the order of code points).
pub open spec fn text_order(a: Seq<char>, b: Seq<char>) -> Order
    decreases a.len(),
{
    if a.len() == 0 {
        if b.len() == 0 {
            Order::Equal
        } else {
            Order::Less
        }
    } else if b.len() == 0 {
        Order::Greater
    } else if a[0] < b[0] {
        Order::Less
    } else if a[0] > b[0] {
        Order::Greater
    } else {
        text_order(a.drop_first(), b.drop_first())
    }
}

/// Order of numbers.
pub open spec fn number_order(a: u64, b: u64) -> Order {
    if a < b {
        Order::Less
    } else if a > b {
        Order::Greater
    } else {
        Order::Equal
    }
}

/// The opposite order.
pub open spec fn reversed(o: Order) -> Order {
    match o {
        Order::Less => Order::Greater,
        Order::Equal => Order::Equal,
        Order::Greater => Order::Less,
    }
}

/// The order of two entries in a listing: directories before everything
/// else, then by the chosen key (names compared lowercased, a missing date
/// as 0); `asc` false reverses the key but not the directory grouping.
pub open spec fn entry_order(a: FsEntry, b: FsEntry, key: SortKey, asc: bool) -> Order {
    let dir_a = a.entry_type == FsEntryType::Directory;
    let dir_b = b.entry_type == FsEntryType::Directory;
    if dir_a != dir_b {
        if dir_a {
            Order::Less
        } else {
            Order::Greater
        }
    } else {
        let o = match key {
            SortKey::Name => text_order(lowercase(a.name@), lowercase(b.name@)),
            SortKey::Size => number_order(a.size, b.size),
            SortKey::Date => number_order(
                match a.modified {
                    Some(t) => t,
                    None => 0,
                },
                match b.modified {
                    Some(t) => t,
                    None => 0,
                },
            ),
        };
        if asc {
            o
        } else {
            reversed(o)
        }
    }
}

fn text_order_exec(a: &[char], b: &[char]) -> (o: Order)
    ensures
        o == text_order(a@, b@),
{
    let mut i: usize = 0;
    assert(a@.skip(0) == a@ && b@.skip(0) == b@);
    while i < a.len() && i < b.len() && a[i] == b[i]
        invariant
            0 <= i <= a@.len(),
            i <= b@.len(),
            text_order(a@, b@) == text_order(a@.skip(i as int), b@.skip(i as int)),
        decreases a@.len() - i,
    {
        assert(a@.skip(i as int).drop_first() == a@.skip(i + 1));
        assert(b@.skip(i as int).drop_first() == b@.skip(i + 1));
        i = i + 1;
    }
    if i == a.len() {
        if i == b.len() {
            Order::Equal
        } else {
            Order::Less
        }
    } else if i == b.len() {
        Order::Greater
    } else if a[i] < b[i] {
        Order::Less
    } else {
        Order::Greater
    }
}

fn number_order_exec(a: u64, b: u64) -> (o: Order)
    ensures
        o == number_order(a, b),
{
    if a < b {
        Order::Less
    } else if a > b {
        Order::Greater
    } else {
        Order::Equal
    }
}

/// Compares two entries as a listing orders them.
pub fn compare_entries(a: &FsEntry, b: &FsEntry, key: SortKey, asc: bool) -> (o: Order)
    ensures
        o == entry_order(*a, *b, key, asc),
{
    let dir_a = a.entry_type == FsEntryType::Directory;
    let dir_b = b.entry_type == FsEntryType::Directory;
    if dir_a != dir_b {
        return if dir_a {
            Order::Less
        } else {
            Order::Greater
        };
    }
    let o = match key {
        SortKey::Name => {
            let la = to_lowercase(a.name.as_str());
            let lb = to_lowercase(b.name.as_str());
            let ca = crate::text::chars_of(la.as_str());
            let cb = crate::text::chars_of(lb.as_str());
            text_order_exec(ca.as_slice(), cb.as_slice())
        },
        SortKey::Size => number_order_exec(a.size, b.size),
        SortKey::Date => {
            let ma = match a.modified {
                Some(t) => t,
                None => 0,
            };
            let mb = match b.modified {
                Some(t) => t,
                None => 0,
            };
            number_order_exec(ma, mb)
        },
    };
    if asc {
        o
    } else {
        match o {
            Order::Less => Order::Greater,
            Order::Equal => Order::Equal,
            Order::Greater => Order::Less,
        }
    }
}

/// `x` placed into `s` after every trailing element that does not order
/// after it (one step of a stable insertion sort).
pub open spec fn insert_entry(s: Seq<FsEntry>, x: FsEntry, key: SortKey, asc: bool) -> Seq<FsEntry>
    decreases s.len(),
{
    if s.len() == 0 {
        seq![x]
    } else if entry_order(s.last(), x, key, asc) == Order::Greater {
        insert_entry(s.drop_last(), x, key, asc).push(s.last())
    } else {
        s.push(x)
    }
}

/// The entries in listing order; entries that compare equal keep their
/// relative order (a stable sort).
pub open spec fn sort_entries_spec(s: Seq<FsEntry>, key: SortKey, asc: bool) -> Seq<FsEntry>
    decreases s.len(),
{
    if s.len() == 0 {
        seq![]
    } else {
        insert_entry(sort_entries_spec(s.drop_last(), key, asc), s.last(), key, asc)
    }
}

fn insert_entry_exec(v: &mut Vec<FsEntry>, x: FsEntry, key: SortKey, asc: bool)
    ensures
        final(v)@ == insert_entry(old(v)@, x, key, asc),
{
    let ghost s = v@;
    let mut j = v.len();
    assert(s.take(j as int) == s && s.skip(j as int) =~= Seq::<FsEntry>::empty());
    while j > 0 && compare_entries(&v[j - 1], &x, key, asc) == Order::Greater
        invariant
            0 <= j <= s.len(),
            v@ == s,
            insert_entry(s, x, key, asc) == insert_entry(s.take(j as int), x, key, asc) + s.skip(
                j as int,
            ),
        decreases j,
    {
        let ghost t = s.take(j as int);
        assert(t.drop_last() == s.take(j - 1));
        assert(t.last() == s[j - 1]);
        assert(s.skip(j - 1) == seq![s[j - 1]] + s.skip(j as int));
        j = j - 1;
    }
    proof {
        let t = s.take(j as int);
        if j > 0 {
            assert(t.last() == s[j - 1]);
        }
        assert(insert_entry(t, x, key, asc) == t.push(x));
    }
    v.insert(j, x);
    assert(v@ =~= s.take(j as int).push(x) + s.skip(j as int));
}

/// Sorts entries into listing order.
pub fn sort_entries(v: Vec<FsEntry>, key: SortKey, asc: bool) -> (r: Vec<FsEntry>)
    ensures
        r@ == sort_entries_spec(v@, key, asc),
{
    let mut rest = v;
    let ghost s = rest@;
    let n = rest.len();
    // Reverse the entries so that popping yields them in their original order.
    let mut rev: Vec<FsEntry> = Vec::new();
    while rest.len() > 0
        invariant
            n == s.len(),
            rev@.len() + rest@.len() == n,
            rest@ == s.take(rest@.len() as int),
            forall|k: int| 0 <= k < rev@.len() ==> #[trigger] rev@[k] == s[n - 1 - k],
        decreases rest@.len(),
    {
        let e = rest.pop().unwrap();
        rev.push(e);
    }
    let mut out: Vec<FsEntry> = Vec::new();
    let mut i: usize = 0;
    while rev.len() > 0
        invariant
            n == s.len(),
            rev@.len() + i == n,
            forall|k: int| 0 <= k < rev@.len() ==> #[trigger] rev@[k] == s[n - 1 - k],
            out@ == sort_entries_spec(s.take(i as int), key, asc),
        decreases rev@.len(),
    {
        let e = rev.pop().unwrap();
        assert(e == s[i as int]);
        assert(s.take(i + 1).drop_last() == s.take(i as int));
        insert_entry_exec(&mut out, e, key, asc);
        i = i + 1;
    }
    assert(s.take(n as int) == s);
    out
}

/// Entries in listing order: no entry orders after a later one.
pub open spec fn entries_sorted(s: Seq<FsEntry>, key: SortKey, asc: bool) -> bool {
    forall|i: int, j: int|
        0 <= i < j < s.len() ==> entry_order(#[trigger] s[i], #[trigger] s[j], key, asc)
            != Order::Greater
}

proof fn lemma_text_order_flip(a: Seq<char>, b: Seq<char>)
    ensures
        text_order(a, b) == reversed(text_order(b, a)),
    decreases a.len(),
{
    if a.len() > 0 && b.len() > 0 && a[0] == b[0] {
        lemma_text_order_flip(a.drop_first(), b.drop_first());
    }
}

proof fn lemma_text_order_trans(a: Seq<char>, b: Seq<char>, c: Seq<char>)
    requires
        text_order(a, b) != Order::Greater,
        text_order(b, c) != Order::Greater,
    ensures
        text_order(a, c) != Order::Greater,
    decreases a.len(),
{
    if a.len() > 0 && b.len() > 0 && c.len() > 0 && a[0] == b[0] && b[0] == c[0] {
        lemma_text_order_trans(a.drop_first(), b.drop_first(), c.drop_first());
    }
}

proof fn lemma_entry_order_flip(a: FsEntry, b: FsEntry, key: SortKey, asc: bool)
    ensures
        entry_order(a, b, key, asc) == reversed(entry_order(b, a, key, asc)),
{
    lemma_text_order_flip(lowercase(a.name@), lowercase(b.name@));
}

proof fn lemma_entry_order_trans(a: FsEntry, b: FsEntry, c: FsEntry, key: SortKey, asc: bool)
    requires
        entry_order(a, b, key, asc) != Order::Greater,
        entry_order(b, c, key, asc) != Order::Greater,
    ensures
        entry_order(a, c, key, asc) != Order::Greater,
{
    let (la, lb, lc) = (lowercase(a.name@), lowercase(b.name@), lowercase(c.name@));
    let da = a.entry_type == FsEntryType::Directory;
    let db = b.entry_type == FsEntryType::Directory;
    let dc = c.entry_type == FsEntryType::Directory;
    if key != SortKey::Name || da != db || db != dc {
    } else if asc {
        lemma_text_order_trans(la, lb, lc);
    } else {
        lemma_text_order_flip(la, lb);
        lemma_text_order_flip(lb, lc);
        lemma_text_order_flip(la, lc);
        lemma_text_order_trans(lc, lb, la);
    }
}

proof fn lemma_insert_entry(s: Seq<FsEntry>, x: FsEntry, key: SortKey, asc: bool)
    requires
        entries_sorted(s, key, asc),
    ensures
        entries_sorted(insert_entry(s, x, key, asc), key, asc),
        insert_entry(s, x, key, asc).to_multiset() == s.to_multiset().insert(x),
    decreases s.len(),
{
    broadcast use vstd::seq_lib::group_to_multiset_ensures;

    let r = insert_entry(s, x, key, asc);
    if s.len() == 0 {
        assert(s.push(x) == seq![x]);
    } else if entry_order(s.last(), x, key, asc) == Order::Greater {
        let t = s.drop_last();
        let l = s.last();
        assert(entries_sorted(t, key, asc)) by {
            assert forall|i: int, j: int| 0 <= i < j < t.len() implies entry_order(
                #[trigger] t[i],
                #[trigger] t[j],
                key,
                asc,
            ) != Order::Greater by {
                assert(t[i] == s[i] && t[j] == s[j]);
            }
        }
        lemma_insert_entry(t, x, key, asc);
        let u = insert_entry(t, x, key, asc);
        assert(s == t.push(l));
        lemma_entry_order_flip(l, x, key, asc);
        assert forall|k: int| 0 <= k < u.len() implies entry_order(#[trigger] u[k], l, key, asc)
            != Order::Greater by {
            assert(u.to_multiset().count(u[k]) > 0);
            assert(t.to_multiset().insert(x).count(u[k]) > 0);
            if u[k] != x {
                assert(t.to_multiset().count(u[k]) > 0);
                assert(t.contains(u[k]));
                let m = choose|m: int| 0 <= m < t.len() && t[m] == u[k];
                assert(s[m] == t[m] && s[s.len() - 1] == l);
            }
        }
        assert forall|i: int, j: int| 0 <= i < j < r.len() implies entry_order(
            #[trigger] r[i],
            #[trigger] r[j],
            key,
            asc,
        ) != Order::Greater by {
            assert(r == u.push(l));
            if j < u.len() {
                assert(r[i] == u[i] && r[j] == u[j]);
            } else {
                assert(r[i] == u[i] && r[j] == l);
            }
        }
    } else {
        let l = s.last();
        assert forall|i: int, j: int| 0 <= i < j < r.len() implies entry_order(
            #[trigger] r[i],
            #[trigger] r[j],
            key,
            asc,
        ) != Order::Greater by {
            assert(r == s.push(x));
            if j < s.len() {
                assert(r[i] == s[i] && r[j] == s[j]);
            } else if i == s.len() - 1 {
                assert(r[i] == l && r[j] == x);
            } else {
                assert(r[i] == s[i] && r[j] == x);
                assert(entry_order(s[i], s[s.len() - 1], key, asc) != Order::Greater);
                lemma_entry_order_trans(s[i], l, x, key, asc);
            }
        }
    }
}

/// Sorting puts the entries in listing order and keeps exactly the same
/// entries.
pub proof fn lemma_sort_entries(s: Seq<FsEntry>, key: SortKey, asc: bool)
    ensures
        entries_sorted(sort_entries_spec(s, key, asc), key, asc),
        sort_entries_spec(s, key, asc).to_multiset() == s.to_multiset(),
    decreases s.len(),
{
    broadcast use vstd::seq_lib::group_to_multiset_ensures;

    if s.len() > 0 {
        lemma_sort_entries(s.drop_last(), key, asc);
        lemma_insert_entry(sort_entries_spec(s.drop_last(), key, asc), s.last(), key, asc);
        assert(s == s.drop_last().push(s.last()));
    }
}

/// Whether `needle` occurs in `hay`.
pub open spec fn contains_text(hay: Seq<char>, needle: Seq<char>) -> bool {
    exists|i: int|
        0 <= i && i + needle.len() <= hay.len() && #[trigger] hay.subrange(i, i + needle.len())
            == needle
}

pub(crate) fn contains_chars(hay: &[char], needle: &[char]) -> (b: bool)
    ensures
        b == contains_text(hay@, needle@),
{
    if needle.len() > hay.len() {
        return false;
    }
    let n = hay.len();
    let last = n - needle.len();
    let mut i: usize = 0;
    while i <= last
        invariant
            0 <= i <= last,
            n == hay@.len(),
            last + needle@.len() == hay@.len(),
            forall|k: int| 0 <= k < i ==> #[trigger] hay@.subrange(k, k + needle@.len()) != needle@,
        decreases last + 1 - i,
    {
        let mut j: usize = 0;
        while j < needle.len() && hay[i + j] == needle[j]
            invariant
                i <= last,
                n == hay@.len(),
                last + needle@.len() == hay@.len(),
                0 <= j <= needle@.len(),
                forall|m: int| 0 <= m < j ==> hay@[i + m] == needle@[m],
            decreases needle@.len() - j,
        {
            j = j + 1;
        }
        if j == needle.len() {
            assert(hay@.subrange(i as int, i + needle@.len()) =~= needle@);
            return true;
        }
        assert(hay@.subrange(i as int, i + needle@.len())[j as int] != needle@[j as int]);
        if i == last {
            assert forall|k: int|
                0 <= k && k + needle@.len() <= hay@.len() implies #[trigger] hay@.subrange(
                k,
                k + needle@.len(),
            ) != needle@ by {
                if k == i {
                    assert(hay@.subrange(k, k + needle@.len())[j as int] != needle@[j as int]);
                }
            }
            return false;
        }
        i = i + 1;
    }
    false
}

/// Whether an entry's lowercased name contains the query.
pub open spec fn name_matches(e: FsEntry, query: Seq<char>) -> bool {
    contains_text(lowercase(e.name@), query)
}

/// The entries whose lowercased name contains the query, in order.
pub open spec fn matching_entries(s: Seq<FsEntry>, query: Seq<char>) -> Seq<FsEntry>
    decreases s.len(),
{
    if s.len() == 0 {
        seq![]
    } else {
        let rest = matching_entries(s.drop_last(), query);
        if name_matches(s.last(), query) {
            rest.push(s.last())
        } else {
            rest
        }
    }
}

/// Whether the query stands at some position of the entry's lowercased
/// name.
pub open spec fn name_holds_query(e: FsEntry, q: Seq<char>) -> bool {
    exists|i: int|
        0 <= i && i + q.len() <= lowercase(e.name@).len() && #[trigger] lowercase(e.name@).subrange(i, i + q.len())
            == q
}

/// Searching keeps, in order, exactly the entries whose lowercased name
/// holds the query at some position.
pub proof fn lemma_search_keeps_names_containing_query(s: Seq<FsEntry>, q: Seq<char>)
    ensures
        matching_entries(s, q) == s.filter(
            |e: FsEntry| name_holds_query(e, q),
        ),
    decreases s.len(),
{
    reveal_with_fuel(Seq::filter, 1);
    if s.len() > 0 {
        lemma_search_keeps_names_containing_query(s.drop_last(), q);
    }
}

/// The entries of an optional listing (none when absent).
pub open spec fn listing(o: Option<Vec<FsEntry>>) -> Seq<FsEntry> {
    match o {
        Some(v) => v@,
        None => seq![],
    }
}

/// The entries a selection action works on: without a query the current
/// listing; with one, the search results (or the listing until they arrive)
/// narrowed to names containing the query.
pub open spec fn visible_entries_spec(
    files: Option<Vec<FsEntry>>,
    search_results: Option<Vec<FsEntry>>,
    query: Seq<char>,
) -> Seq<FsEntry> {
    if query.len() == 0 {
        listing(files)
    } else {
        matching_entries(
            match search_results {
                Some(r) => r@,
                None => listing(files),
            },
            query,
        )
    }
}

fn copy_entries(v: &Vec<FsEntry>) -> (r: Vec<FsEntry>)
    ensures
        r@ == v@,
{
    let mut r: Vec<FsEntry> = Vec::new();
    let mut i: usize = 0;
    while i < v.len()
        invariant
            0 <= i <= v@.len(),
            r@ == v@.take(i as int),
        decreases v@.len() - i,
    {
        r.push(copy_entry(&v[i]));
        assert(v@.take(i + 1) == v@.take(i as int).push(v@[i as int]));
        i = i + 1;
    }
    assert(v@.take(v@.len() as int) == v@);
    r
}

/// The entries a selection action works on (see `visible_entries_spec`);
/// `query` is the already trimmed and lowercased search text.
pub fn owned_visible_entries(
    files: &Option<Vec<FsEntry>>,
    search_results: &Option<Vec<FsEntry>>,
    query: &str,
) -> (r: Vec<FsEntry>)
    ensures
        r@ == visible_entries_spec(*files, *search_results, query@),
        query@.len() > 0 ==> r@ == (match *search_results {
            Some(found) => found@,
            None => listing(*files),
        }).filter(
            |e: FsEntry| name_holds_query(e, query@),
        ),
{
    let q = crate::text::chars_of(query);
    proof {
        let src = match search_results {
            Some(found) => found@,
            None => listing(*files),
        };
        lemma_search_keeps_names_containing_query(src, query@);
    }
    let source: &Vec<FsEntry> = if q.len() == 0 {
        match files {
            Some(f) => f,
            None => return Vec::new(),
        }
    } else {
        match search_results {
            Some(r) => r,
            None => match files {
                Some(f) => f,
                None => return Vec::new(),
            },
        }
    };
    if q.len() == 0 {
        return copy_entries(source);
    }
    let mut r: Vec<FsEntry> = Vec::new();
    let mut i: usize = 0;
    while i < source.len()
        invariant
            0 <= i <= source@.len(),
            q@ == query@,
            r@ == matching_entries(source@.take(i as int), query@),
        decreases source@.len() - i,
    {
        let e = &source[i];
        let lname = to_lowercase(e.name.as_str());
        let lc = crate::text::chars_of(lname.as_str());
        assert(source@.take(i + 1).drop_last() == source@.take(i as int));
        if contains_chars(lc.as_slice(), q.as_slice()) {
            r.push(copy_entry(e));
        }
        i = i + 1;
    }
    assert(source@.take(source@.len() as int) == source@);
    r
}

/// The search text as it is matched: trimmed and lowercased.
pub fn search_query(search: &str) -> (q: String)
    ensures
        q@ == lowercase(crate::text::trim_spec(search@)),
{
    let cs = crate::text::chars_of(search);
    let i = crate::text::skip_ws(cs.as_slice(), 0);
    assert(cs@.skip(0) == cs@);
    let k = crate::text::skip_ws_back(cs.as_slice(), i, cs.len());
    assert(cs@.subrange(i as int, cs@.len() as int) == cs@.skip(i as int));
    let trimmed = crate::text::string_of(&cs[i..k]);
    to_lowercase(trimmed.as_str())
}

/// The paths of a sequence of entries.
pub open spec fn entry_paths(s: Seq<FsEntry>) -> Set<Seq<char>> {
    Set::new(|p: Seq<char>| exists|i: int| 0 <= i < s.len() && #[trigger] s[i].path@ == p)
}

/// Selects every visible entry, or clears the selection when every visible
/// entry is already selected. `search` is the raw search text.
pub fn toggle_all_visible(
    files: &Option<Vec<FsEntry>>,
    search_results: &Option<Vec<FsEntry>>,
    search: &str,
    selected: &mut StrMap<()>,
)
    requires
        old(selected).wf(),
    ensures
        final(selected).wf(),
        ({
            let vis = visible_entries_spec(
                *files,
                *search_results,
                lowercase(crate::text::trim_spec(search@)),
            );
            let all_now = vis.len() > 0 && entry_paths(vis).subset_of(old(selected)@.dom());
            &&& all_now ==> final(selected)@.dom() == Set::<Seq<char>>::empty()
            &&& !all_now ==> final(selected)@.dom() == old(selected)@.dom().union(entry_paths(vis))
        }),
{
    let query = search_query(search);
    let vis = owned_visible_entries(files, search_results, query.as_str());
    let ghost vs = vis@;
    let mut all_now = vis.len() > 0;
    let mut i: usize = 0;
    while i < vis.len()
        invariant
            0 <= i <= vis@.len(),
            vis@ == vs,
            selected.wf(),
            all_now == (vs.len() > 0 && forall|k: int|
                0 <= k < i ==> selected@.contains_key(#[trigger] vs[k].path@)),
        decreases vis@.len() - i,
    {
        if !selected.contains_key(vis[i].path.as_str()) {
            all_now = false;
        }
        i = i + 1;
    }
    assert(all_now == (vs.len() > 0 && entry_paths(vs).subset_of(selected@.dom()))) by {
        if vs.len() > 0 && (forall|k: int| 0 <= k < vs.len() ==> selected@.contains_key(#[trigger] vs[k].path@)) {
            assert forall|p: Seq<char>| entry_paths(vs).contains(p) implies selected@.dom().contains(p) by {
                let k = choose|k: int| 0 <= k < vs.len() && #[trigger] vs[k].path@ == p;
                assert(selected@.contains_key(vs[k].path@));
            }
        }
        if entry_paths(vs).subset_of(selected@.dom()) {
            assert forall|k: int| 0 <= k < vs.len() implies selected@.contains_key(#[trigger] vs[k].path@) by {
                assert(entry_paths(vs).contains(vs[k].path@));
            }
        }
    }
    if all_now {
        selected.clear();
        assert(selected@.dom() =~= Set::<Seq<char>>::empty());
        return;
    }
    let ghost before = selected@.dom();
    let mut j: usize = 0;
    while j < vis.len()
        invariant
            0 <= j <= vis@.len(),
            vis@ == vs,
            selected.wf(),
            selected@.dom() == before.union(entry_paths(vs.take(j as int))),
        decreases vis@.len() - j,
    {
        selected.insert(vis[j].path.clone(), ());
        assert(entry_paths(vs.take(j + 1)) =~= entry_paths(vs.take(j as int)).insert(vs[j as int].path@)) by {
            assert forall|p: Seq<char>| entry_paths(vs.take(j + 1)).contains(p) implies entry_paths(vs.take(j as int)).insert(vs[j as int].path@).contains(p) by {
                let k = choose|k: int| 0 <= k < vs.take(j + 1).len() && #[trigger] vs.take(j + 1)[k].path@ == p;
                if k < j {
                    assert(vs.take(j as int)[k] == vs[k]);
                }
            }
            assert forall|p: Seq<char>| entry_paths(vs.take(j as int)).insert(vs[j as int].path@).contains(p) implies entry_paths(vs.take(j + 1)).contains(p) by {
                if p == vs[j as int].path@ {
                    assert(vs.take(j + 1)[j as int] == vs[j as int]);
                } else {
                    let k = choose|k: int| 0 <= k < vs.take(j as int).len() && #[trigger] vs.take(j as int)[k].path@ == p;
                    assert(vs.take(j + 1)[k] == vs[k]);
                }
            }
        }
        assert(selected@.dom() =~= before.union(entry_paths(vs.take(j + 1))));
        j = j + 1;
    }
    assert(vs.take(vs.len() as int) == vs);
}

/// The selected entries among the visible ones, in listing order.
pub fn visible_selected_snapshot(
    files: &Option<Vec<FsEntry>>,
    search_results: &Option<Vec<FsEntry>>,
    search: &str,
    sort_key: SortKey,
    sort_asc: bool,
    selected: &StrMap<()>,
) -> (r: Vec<FsEntry>)
    requires
        selected.wf(),
    ensures
        r@ == sort_entries_spec(
            selected_entries(
                visible_entries_spec(
                    *files,
                    *search_results,
                    lowercase(crate::text::trim_spec(search@)),
                ),
                selected@.dom(),
            ),
            sort_key,
            sort_asc,
        ),
{
    let query = search_query(search);
    let vis = owned_visible_entries(files, search_results, query.as_str());
    let mut kept: Vec<FsEntry> = Vec::new();
    let mut i: usize = 0;
    while i < vis.len()
        invariant
            0 <= i <= vis@.len(),
            selected.wf(),
            kept@ == selected_entries(vis@.take(i as int), selected@.dom()),
        decreases vis@.len() - i,
    {
        assert(vis@.take(i + 1).drop_last() == vis@.take(i as int));
        if selected.contains_key(vis[i].path.as_str()) {
            kept.push(copy_entry(&vis[i]));
        }
        i = i + 1;
    }
    assert(vis@.take(vis@.len() as int) == vis@);
    sort_entries(kept, sort_key, sort_asc)
}

/// The entries whose path is in the set, in order.
pub open spec fn selected_entries(s: Seq<FsEntry>, sel: Set<Seq<char>>) -> Seq<FsEntry>
    decreases s.len(),
{
    if s.len() == 0 {
        seq![]
    } else {
        let rest = selected_entries(s.drop_last(), sel);
        if sel.contains(s.last().path@) {
            rest.push(s.last())
        } else {
            rest
        }
    }
}

} // verus!
