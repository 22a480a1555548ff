//! Deterministic, bounded names.
//!
//! Names that are generated from user-chosen names have to be stable across
//! reconciles, restarts and replicas, and short enough for a DNS label. Long
//! names are cut and made unique again by an FNV-1a hash, which does not change
//! from one toolchain to the next.
use vstd::arithmetic::div_mod::{
    lemma_mod_multiples_vanish, lemma_mul_mod_noop_left, lemma_small_mod,
};
use vstd::arithmetic::power::pow;
use vstd::prelude::*;
use vstd::string::*;
use vstd::utf8::*;

use crate::text::{
    byte_len, head, hex, hex_text, is_hex_digit, lemma_chars_within_bytes, lemma_encode_concat,
    lemma_hex, lemma_hex_tells_numbers, lemma_without_trailing, opt_str, opt_text, same,
    same_opt, take_chars, trim_end_matches, without_trailing,
};

verus! {

/// FNV-1a's starting value.
pub const FNV_OFFSET: u64 = 0xcbf2_9ce4_8422_2325;

/// FNV-1a's multiplier.
pub const FNV_PRIME: u64 = 0x0000_0100_0000_01b3;

/// What kind of repository is referred to.
#[derive(Debug, Clone, Copy, PartialEq, Eq, Structural)]
pub enum RepositoryKind {
    /// A repository that belongs to one namespace.
    Repository,
    /// A repository that the whole cluster shares.
    ClusterRepository,
}

/// A reference to a repository.
#[derive(Debug, Clone, PartialEq, Eq)]
pub struct RepositoryRef {
    /// The kind of repository.
    pub kind: RepositoryKind,
    /// Its name.
    pub name: String,
    /// Its namespace, where one is given.
    pub namespace: Option<String>,
}

/// What a repository reference says.
pub struct RepositoryRefView {
    /// The kind of repository.
    pub kind: RepositoryKind,
    /// Its name.
    pub name: Seq<char>,
    /// Its namespace, where one is given.
    pub namespace: Option<Seq<char>>,
}

impl View for RepositoryRef {
    type V = RepositoryRefView;

    open spec fn view(&self) -> RepositoryRefView {
        RepositoryRefView {
            kind: self.kind,
            name: self.name@,
            namespace: opt_text(self.namespace),
        }
    }
}

/// The 64-bit FNV-1a hash of a byte sequence.
pub open spec fn fnv(bytes: Seq<u8>) -> u64
    decreases bytes.len(),
{
    if bytes.len() == 0 {
        FNV_OFFSET
    } else {
        (fnv(bytes.drop_last()) ^ (bytes.last() as u64)).wrapping_mul(FNV_PRIME)
    }
}

/// The hash of a text: that of its UTF-8 bytes.
pub open spec fn text_hash(s: Seq<char>) -> u64 {
    fnv(encode_utf8(s))
}

/// `full`, or where it takes more than 63 bytes its first 46 characters, less
/// any hyphens that these end in, and the hash of the whole.
pub open spec fn capped(full: Seq<char>) -> Seq<char> {
    if encode_utf8(full).len() <= 63 {
        full
    } else {
        without_trailing(head(full, 46), '-') + "-"@ + hex(text_hash(full) as nat, 16)
    }
}

/// The low 32 bits of the hash in eight hexadecimal digits.
pub open spec fn short(s: Seq<char>) -> Seq<char> {
    hex((text_hash(s) & 0xffff_ffff) as nat, 8)
}

/// The key under which a pinned repository reference is counted.
pub open spec fn pinned_key(r: RepositoryRefView) -> Seq<char> {
    match r.kind {
        RepositoryKind::Repository => "repository:"@ + (match r.namespace {
            Some(ns) => ns,
            None => ""@,
        }) + "/"@ + r.name,
        RepositoryKind::ClusterRepository => "clusterrepository:"@ + r.name,
    }
}

/// The label value of a repository: forty characters of its name and the short
/// hash of its key.
pub open spec fn label_of(r: RepositoryRefView) -> Seq<char> {
    head(r.name, 40) + "-"@ + short(pinned_key(r))
}

/// The reference with its namespace filled in from the object that holds it.
pub open spec fn normalized(r: RepositoryRefView, owner_namespace: Seq<char>) -> RepositoryRefView {
    RepositoryRefView {
        namespace: match (r.kind, r.namespace) {
            (RepositoryKind::Repository, Some(ns)) => Some(ns),
            (RepositoryKind::Repository, None) => Some(owner_namespace),
            (RepositoryKind::ClusterRepository, _) => None,
        },
        ..r
    }
}

/// Whether a reference held in `owner_namespace` means the repository with the
/// given kind, name and namespace. A cluster-wide repository has no namespace.
pub open spec fn resolves(
    r: RepositoryRefView,
    owner_namespace: Seq<char>,
    kind: RepositoryKind,
    name: Seq<char>,
    namespace: Option<Seq<char>>,
) -> bool {
    &&& r.kind == kind
    &&& r.name == name
    &&& kind == RepositoryKind::Repository ==> normalized(r, owner_namespace).namespace == namespace
}

impl RepositoryRef {
    /// Whether this reference, held in `owner_namespace`, means the repository
    /// with the given kind, name and namespace.
    pub fn resolves_to(
        &self,
        owner_namespace: &str,
        kind: RepositoryKind,
        name: &str,
        namespace: Option<&str>,
    ) -> (r: bool)
        ensures
            r == resolves(self@, owner_namespace@, kind, name@, opt_str(namespace)),
    {
        if self.kind != kind || !same(self.name.as_str(), name) {
            return false;
        }
        match kind {
            RepositoryKind::Repository => match &self.namespace {
                Some(ns) => same_opt(Some(ns.as_str()), namespace),
                None => same_opt(Some(owner_namespace), namespace),
            },
            RepositoryKind::ClusterRepository => true,
        }
    }

    /// A copy of the reference.
    pub fn copy(&self) -> (r: Self)
        ensures
            r@ == self@,
    {
        RepositoryRef {
            kind: self.kind,
            name: self.name.clone(),
            namespace: match &self.namespace {
                Some(ns) => Some(ns.clone()),
                None => None,
            },
        }
    }
}

/// 64-bit FNV-1a over the bytes of a string.
pub fn fnv1a(s: &str) -> (h: u64)
    ensures
        h == text_hash(s@),
{
    let bytes = s.as_bytes();
    let mut h: u64 = FNV_OFFSET;
    let mut i: usize = 0;
    assert(bytes@.take(0) =~= Seq::empty());
    while i < bytes.len()
        invariant
            bytes@ == encode_utf8(s@),
            i <= bytes@.len(),
            h == fnv(bytes@.take(i as int)),
        decreases bytes@.len() - i,
    {
        assert(bytes@.take(i + 1).drop_last() =~= bytes@.take(i as int));
        h = (h ^ (bytes[i] as u64)).wrapping_mul(FNV_PRIME);
        i += 1;
    }
    assert(bytes@.take(i as int) =~= bytes@);
    h
}

/// Caps a generated object name at the length of a DNS label: a long name keeps
/// its leading 46 characters and gets a stable hash of the whole.
pub fn capped_name(full: &str) -> (r: String)
    ensures
        r@ == capped(full@),
{
    if byte_len(full) <= 63 {
        return full.to_owned();
    }
    let prefix = take_chars(full, 46);
    let mut out = trim_end_matches(prefix.as_str(), '-');
    out.append("-");
    let hash = hex_text(fnv1a(full), 16);
    out.append(hash.as_str());
    out
}

/// A short, stable hash of eight hexadecimal digits, for cut names.
pub fn short_hash(s: &str) -> (r: String)
    ensures
        r@ == short(s@),
{
    hex_text(fnv1a(s) & 0xffff_ffff, 8)
}

/// The six-digit tag of a repository: the front of its key's short hash.
pub fn repo_tag6(repo_key: &str) -> (r: String)
    ensures
        r@ == head(short(repo_key@), 6),
{
    let hash = short_hash(repo_key);
    take_chars(hash.as_str(), 6)
}

/// The key of a repository reference that has its namespace filled in. A
/// namespaced reference without a namespace gets the key with an empty one.
pub fn pinned_repo_key(r: &RepositoryRef) -> (key: String)
    ensures
        key@ == pinned_key(r@),
{
    match r.kind {
        RepositoryKind::Repository => {
            let mut out = "repository:".to_owned();
            match &r.namespace {
                Some(ns) => out.append(ns.as_str()),
                None => out.append(""),
            }
            out.append("/");
            out.append(r.name.as_str());
            out
        },
        RepositoryKind::ClusterRepository => {
            let mut out = "clusterrepository:".to_owned();
            out.append(r.name.as_str());
            out
        },
    }
}

/// The label value of a repository: at most forty characters of its name and
/// the short hash of its key.
pub fn repo_label(r: &RepositoryRef) -> (label: String)
    ensures
        label@ == label_of(r@),
{
    let mut out = take_chars(r.name.as_str(), 40);
    let key = pinned_repo_key(r);
    let hash = short_hash(key.as_str());
    out.append("-");
    out.append(hash.as_str());
    out
}

/// The reference with its namespace filled in from the object that holds it.
pub fn normalized_repository_ref(r: &RepositoryRef, owner_namespace: &str) -> (n: RepositoryRef)
    ensures
        n@ == normalized(r@, owner_namespace@),
{
    let namespace: Option<String> = match r.kind {
        RepositoryKind::Repository => match &r.namespace {
            Some(ns) => Some(ns.clone()),
            None => Some(owner_namespace.to_owned()),
        },
        RepositoryKind::ClusterRepository => None,
    };
    RepositoryRef { kind: r.kind, name: r.name.clone(), namespace }
}

/// The name of the discovery Job of a repository of either kind.
pub fn discovery_job_name(repo: &str) -> (r: String)
    ensures
        r@ == repo@ + "-discovery"@,
{
    let mut out = repo.to_owned();
    out.append("-discovery");
    out
}

proof fn lemma_without_trailing_within(s: Seq<char>, c: char)
    ensures
        without_trailing(s, c).is_prefix_of(s),
    decreases s.len(),
{
    if s.len() > 0 && s.last() == c {
        lemma_without_trailing_within(s.drop_last(), c);
        let t = without_trailing(s, c);
        assert(t =~= s.drop_last().take(t.len() as int));
        assert(t =~= s.take(t.len() as int));
    } else {
        assert(s =~= s.take(s.len() as int));
    }
}

/// A capped name has at most 63 characters, and a name that fits is kept as it is.
pub proof fn lemma_capped_fits(full: Seq<char>)
    ensures
        capped(full).len() <= 63,
        encode_utf8(full).len() <= 63 ==> capped(full) == full,
{
    lemma_chars_within_bytes(full);
    if encode_utf8(full).len() > 63 {
        reveal_strlit("-");
        lemma_without_trailing_within(head(full, 46), '-');
        lemma_hex(text_hash(full) as nat, 16);
    }
}

/// A capped ASCII name takes at most 63 bytes: it is a DNS label by length.
pub proof fn lemma_capped_ascii_fits(full: Seq<char>)
    requires
        is_ascii_chars(full),
    ensures
        is_ascii_chars(capped(full)),
        encode_utf8(capped(full)).len() <= 63,
{
    lemma_capped_fits(full);
    if encode_utf8(full).len() > 63 {
        reveal_strlit("-");
        let front = without_trailing(head(full, 46), '-');
        lemma_without_trailing_within(head(full, 46), '-');
        lemma_hex(text_hash(full) as nat, 16);
        lemma_hex_is_ascii(text_hash(full) as nat, 16);
        assert forall|i: int| 0 <= i < front.len() implies front[i] == full[i] by {
            assert(front =~= head(full, 46).take(front.len() as int));
        }
        is_ascii_chars_encode_utf8(capped(full));
    }
    is_ascii_chars_encode_utf8(capped(full));
}

/// Multiplying by the prime loses nothing: it is odd, so that it has an inverse among
/// the 64-bit words.
proof fn lemma_prime_keeps_apart(a: u64, b: u64)
    requires
        a.wrapping_mul(FNV_PRIME) == b.wrapping_mul(FNV_PRIME),
    ensures
        a == b,
{
    let m: int = 0x1_0000_0000_0000_0000;
    let p: int = FNV_PRIME as int;
    let q: int = 0xce96_5057_aff6_957b;
    let k: int = 0xce_9650_590f;
    assert(p * q == 1 + m * k);
    assert forall|x: u64| (#[trigger] (x * p) % m) * q % m == x by {
        lemma_mul_mod_noop_left(x * p, q, m);
        assert(x * p * q == m * (x * k) + x) by (nonlinear_arith)
            requires
                p * q == 1 + m * k,
        ;
        lemma_mod_multiples_vanish(x * k, x as int, m);
        lemma_small_mod(x as nat, m as nat);
    }
    assert((a * p) % m == (b * p) % m);
}

/// The last byte shows in the hash.
proof fn lemma_hash_tells_last_byte(front: Seq<u8>, x: u8, y: u8)
    requires
        fnv(front.push(x)) == fnv(front.push(y)),
    ensures
        x == y,
{
    assert(front.push(x).drop_last() =~= front);
    assert(front.push(y).drop_last() =~= front);
    let h = fnv(front);
    lemma_prime_keeps_apart(h ^ (x as u64), h ^ (y as u64));
    assert(x == y) by (bit_vector)
        requires
            h ^ (x as u64) == h ^ (y as u64),
    ;
}

proof fn lemma_encode_ascii_end(front: Seq<char>, c: char)
    requires
        (c as u32) < 0x80,
    ensures
        encode_utf8(front.push(c)) == encode_utf8(front).push(c as u8),
{
    assert(front.push(c) =~= front + seq![c]);
    lemma_encode_concat(front, seq![c]);
    let u = c as u32;
    assert((u & 0x7f) as u8 == u as u8) by (bit_vector)
        requires
            u < 0x80,
    ;
    assert(seq![c].drop_first() =~= Seq::<char>::empty());
    assert(encode_utf8(Seq::<char>::empty()) =~= Seq::<u8>::empty());
    reveal_with_fuel(encode_utf8, 2);
    assert(encode_utf8(seq![c]) =~= seq![c as u8]);
    assert(encode_utf8(front) + seq![c as u8] =~= encode_utf8(front).push(c as u8));
}

/// Names that differ in their last character alone, an ASCII one, still differ when
/// they are capped.
pub proof fn lemma_capped_tells_last_char(front: Seq<char>, x: char, y: char)
    requires
        (x as u32) < 0x80,
        (y as u32) < 0x80,
        x != y,
    ensures
        capped(front.push(x)) != capped(front.push(y)),
{
    let (a, b) = (front.push(x), front.push(y));
    lemma_encode_ascii_end(front, x);
    lemma_encode_ascii_end(front, y);
    assert(a.last() != b.last());
    if encode_utf8(a).len() > 63 && capped(a) == capped(b) {
        let (h, k) = (text_hash(a), text_hash(b));
        lemma_hex(h as nat, 16);
        lemma_hex(k as nat, 16);
        let n = capped(a).len() as int;
        assert(hex(h as nat, 16) =~= capped(a).subrange(n - 16, n));
        assert(hex(k as nat, 16) =~= capped(b).subrange(n - 16, n));
        reveal_with_fuel(pow, 17);
        assert(pow(16, 16) == 0x1_0000_0000_0000_0000);
        lemma_hex_tells_numbers(h as nat, k as nat, 16);
        lemma_hash_tells_last_byte(encode_utf8(front), x as u8, y as u8);
    }
}

/// Hexadecimal digits are ASCII.
pub proof fn lemma_hex_is_ascii(n: nat, width: nat)
    ensures
        is_ascii_chars(hex(n, width)),
{
    lemma_hex(n, width);
    reveal_strlit("0123456789abcdef");
}

/// A short hash is eight hexadecimal digits, and a repository's tag is the
/// first six of them.
pub proof fn lemma_short_hash_shape(s: Seq<char>)
    ensures
        short(s).len() == 8,
        forall|i: int| 0 <= i < 8 ==> is_hex_digit(#[trigger] short(s)[i]),
        head(short(s), 6) == short(s).take(6),
        head(short(s), 6).len() == 6,
        forall|i: int| 0 <= i < 6 ==> is_hex_digit(#[trigger] head(short(s), 6)[i]),
{
    lemma_hex((text_hash(s) & 0xffff_ffff) as nat, 8);
    assert forall|i: int| 0 <= i < 6 implies is_hex_digit(#[trigger] head(short(s), 6)[i]) by {
        assert(head(short(s), 6)[i] == short(s)[i]);
    }
}

/// A repository's label has at most 49 characters, and each of them comes from
/// the repository's name, is a hyphen or is a hexadecimal digit. So what a label
/// value may not hold is in it only where the name holds it.
pub proof fn lemma_repo_label_is_label_value(r: RepositoryRefView)
    ensures
        label_of(r).len() <= 49,
        forall|i: int|
            0 <= i < label_of(r).len() ==> {
                let c = #[trigger] label_of(r)[i];
                r.name.contains(c) || c == '-' || is_hex_digit(c)
            },
{
    let label = label_of(r);
    let hash = short(pinned_key(r));
    let front = head(r.name, 40);
    reveal_strlit("-");
    lemma_short_hash_shape(pinned_key(r));
    assert forall|i: int| 0 <= i < label.len() implies {
        let c = #[trigger] label[i];
        r.name.contains(c) || c == '-' || is_hex_digit(c)
    } by {
        if i < front.len() {
            assert(label[i] == r.name[i]);
        } else if i > front.len() {
            assert(label[i] == hash[i - front.len() - 1]);
        }
    }
}

/// Filling in a namespace that the reference lacks gives the repository the key
/// and the label of the reference that names it.
pub proof fn lemma_normalizing_rejoins(r: RepositoryRefView, owner_namespace: Seq<char>)
    requires
        r.kind == RepositoryKind::Repository,
        r.namespace is None,
    ensures
        ({
            let named = RepositoryRefView { namespace: Some(owner_namespace), ..r };
            &&& normalized(r, owner_namespace) == named
            &&& pinned_key(normalized(r, owner_namespace)) == pinned_key(named)
            &&& label_of(normalized(r, owner_namespace)) == label_of(named)
        }),
        normalized(normalized(r, owner_namespace), owner_namespace) == normalized(r, owner_namespace),
{
}

/// A namespaced repository and a cluster-wide one never share a key, and two
/// namespaced ones share it only where namespace and name agree, as long as no
/// namespace holds a slash.
pub proof fn lemma_pinned_keys_tell_repositories_apart(a: RepositoryRefView, b: RepositoryRefView)
    requires
        a.namespace matches Some(ns) ==> !ns.contains('/'),
        b.namespace matches Some(ns) ==> !ns.contains('/'),
        pinned_key(a) == pinned_key(b),
    ensures
        a.kind == b.kind,
        a.name == b.name,
        a.kind == RepositoryKind::Repository ==> (match a.namespace {
            Some(ns) => ns,
            None => Seq::empty(),
        }) == (match b.namespace {
            Some(ns) => ns,
            None => Seq::empty(),
        }),
{
    reveal_strlit("repository:");
    reveal_strlit("clusterrepository:");
    reveal_strlit("/");
    reveal_strlit("");
    let k = pinned_key(a);
    assert(""@ =~= Seq::<char>::empty());
    if a.kind != b.kind {
        assert(k[0] == 'r');
        assert(k[0] == 'c');
    } else if a.kind == RepositoryKind::ClusterRepository {
        assert(a.name =~= k.skip(18));
        assert(b.name =~= k.skip(18));
    } else {
        let x = match a.namespace {
            Some(ns) => ns,
            None => Seq::empty(),
        };
        let y = match b.namespace {
            Some(ns) => ns,
            None => Seq::empty(),
        };
        assert(k[11 + x.len() as int] == '/');
        assert(k[11 + y.len() as int] == '/');
        if x.len() < y.len() {
            assert(y[x.len() as int] == k[11 + x.len() as int]);
        }
        if y.len() < x.len() {
            assert(x[y.len() as int] == k[11 + y.len() as int]);
        }
        assert(x =~= k.subrange(11, 11 + x.len() as int));
        assert(y =~= k.subrange(11, 11 + y.len() as int));
        assert(a.name =~= k.skip(12 + x.len() as int));
        assert(b.name =~= k.skip(12 + y.len() as int));
    }
}

/// Which repository a reference means. A namespaced one is that of the namespace it names,
/// or else of the namespace it is held in; a cluster-wide one is meant wherever it is held
/// and whatever namespace it names.
pub proof fn lemma_which_repository_is_meant(
    r: RepositoryRef,
    owner_namespace: Seq<char>,
    kind: RepositoryKind,
    name: Seq<char>,
    namespace: Option<Seq<char>>,
)
    ensures
        resolves(r@, owner_namespace, kind, name, namespace) ==> r.kind == kind && r.name@ == name,
        kind == RepositoryKind::Repository && r.kind == kind && r.name@ == name ==> (resolves(
            r@,
            owner_namespace,
            kind,
            name,
            namespace,
        ) <==> namespace == Some(
            match r.namespace {
                Some(ns) => ns@,
                None => owner_namespace,
            },
        )),
        kind == RepositoryKind::ClusterRepository && r.kind == kind && r.name@ == name ==> resolves(
            r@,
            owner_namespace,
            kind,
            name,
            namespace,
        ),
{
}

/// Normalizing fills in the namespace of a namespaced reference that has none, takes that
/// of a cluster-wide one away, and leaves the rest.
pub proof fn lemma_normalizing(r: RepositoryRef, owner_namespace: Seq<char>)
    ensures
        normalized(r@, owner_namespace).kind == r.kind,
        normalized(r@, owner_namespace).name == r.name@,
        r.kind == RepositoryKind::ClusterRepository ==> normalized(r@, owner_namespace).namespace is None,
        r.kind == RepositoryKind::Repository && r.namespace is Some ==> normalized(
            r@,
            owner_namespace,
        ).namespace == Some(r.namespace->0@),
        r.kind == RepositoryKind::Repository && r.namespace is None ==> normalized(
            r@,
            owner_namespace,
        ).namespace == Some(owner_namespace),
{
}

/// The key of a repository in words.
pub proof fn lemma_keys(r: RepositoryRef)
    ensures
        r.kind == RepositoryKind::Repository && r.namespace is Some ==> pinned_key(r@)
            == "repository:"@ + r.namespace->0@ + "/"@ + r.name@,
        r.kind == RepositoryKind::Repository && r.namespace is None ==> pinned_key(r@)
            == "repository:"@ + ""@ + "/"@ + r.name@,
        r.kind == RepositoryKind::ClusterRepository ==> pinned_key(r@) == "clusterrepository:"@
            + r.name@,
        label_of(r@) == head(r.name@, 40) + "-"@ + short(pinned_key(r@)),
{
}

/// The hash takes each byte in turn: it is mixed in, and the whole is multiplied by the
/// prime, in 64 bits.
pub proof fn lemma_hash_steps(front: Seq<u8>, b: u8)
    ensures
        fnv(Seq::empty()) == 0xcbf2_9ce4_8422_2325,
        fnv(front.push(b)) == ((fnv(front) ^ (b as u64)) as int * 0x100_0000_01b3)
            % 0x1_0000_0000_0000_0000,
        forall|s: Seq<char>| #[trigger] text_hash(s) == fnv(encode_utf8(s)),
        forall|s: Seq<char>| #[trigger]
            short(s) == hex((text_hash(s) % 0x1_0000_0000) as nat, 8),
{
    assert(front.push(b).drop_last() =~= front);
    assert forall|s: Seq<char>| #[trigger]
        short(s) == hex((text_hash(s) % 0x1_0000_0000) as nat, 8) by {
        let h = text_hash(s);
        assert(h & 0xffff_ffff == h % 0x1_0000_0000) by (bit_vector);
    }
}

/// A name that is too long keeps its first 46 characters, less the hyphens that these end
/// in, and gets a hyphen and the sixteen digits of the hash of the whole.
pub proof fn lemma_how_a_name_is_capped(full: Seq<char>)
    requires
        encode_utf8(full).len() > 63,
    ensures
        ({
            let n = capped(full).len() - 17;
            &&& 0 <= n <= 46
            &&& capped(full).skip(n) == "-"@ + hex(text_hash(full) as nat, 16)
            &&& full.len() >= 46 ==> {
                &&& capped(full).take(n) == full.take(n)
                &&& forall|i: int| n <= i < 46 ==> #[trigger] full[i] == '-'
                &&& n > 0 ==> full[n - 1] != '-'
            }
        }),
{
    reveal_strlit("-");
    let front = without_trailing(head(full, 46), '-');
    lemma_without_trailing(head(full, 46), '-');
    lemma_hex(text_hash(full) as nat, 16);
    let n = front.len() as int;
    assert(capped(full).skip(n) =~= "-"@ + hex(text_hash(full) as nat, 16));
    if full.len() >= 46 {
        assert(head(full, 46) =~= full.take(46));
        assert(capped(full).take(n) =~= full.take(n));
        assert forall|i: int| n <= i < 46 implies #[trigger] full[i] == '-' by {
            assert(head(full, 46)[i] == full[i]);
        }
        if n > 0 {
            assert(front.last() == full[n - 1]);
        }
    }
}

} // verus!
