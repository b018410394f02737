use vstd::prelude::*;

use vstd::std_specs::iter::IteratorSpec;

use crate::err::{InvalidNamespace, InvalidPath, NSIDParseError};

verus! {

broadcast use vstd::string::axiom_spec_iter, vstd::string::next_postcondition;

// ---------------------------------------------------------------------------
// Character classes and the text grammar of an identifier
// ---------------------------------------------------------------------------

/// Characters allowed in a namespace: `a-z`, `0-9`, `-` and `_`.
pub open spec fn is_namespace_char(c: char) -> bool {
    ('a' <= c && c <= 'z') || ('0' <= c && c <= '9') || c == '-' || c == '_'
}

/// Characters allowed in a path: those of a namespace, plus `.` and `/`.
pub open spec fn is_path_char(c: char) -> bool {
    is_namespace_char(c) || c == '.' || c == '/'
}

pub open spec fn valid_namespace(s: Seq<char>) -> bool {
    s.len() > 0 && forall|i: int| 0 <= i < s.len() ==> is_namespace_char(#[trigger] s[i])
}

pub open spec fn valid_path(s: Seq<char>) -> bool {
    s.len() > 0 && forall|i: int| 0 <= i < s.len() ==> is_path_char(#[trigger] s[i])
}

/// `i` is the position of the first character of `s` outside the namespace alphabet.
pub open spec fn first_bad_namespace_char(s: Seq<char>, i: int) -> bool {
    &&& 0 <= i < s.len()
    &&& !is_namespace_char(s[i])
    &&& forall|j: int| 0 <= j < i ==> is_namespace_char(#[trigger] s[j])
}

/// `i` is the position of the first character of `s` outside the path alphabet.
pub open spec fn first_bad_path_char(s: Seq<char>, i: int) -> bool {
    &&& 0 <= i < s.len()
    &&& !is_path_char(s[i])
    &&& forall|j: int| 0 <= j < i ==> is_path_char(#[trigger] s[j])
}

/// `k` is the position of the first `:` in `s`.
pub open spec fn first_colon(s: Seq<char>, k: int) -> bool {
    &&& 0 <= k < s.len()
    &&& s[k] == ':'
    &&& forall|j: int| 0 <= j < k ==> #[trigger] s[j] != ':'
}

/// The outcome of validating `s` as a namespace.
pub open spec fn namespace_check(s: Seq<char>) -> Result<(), InvalidNamespace> {
    if s.len() == 0 {
        Err(InvalidNamespace::Empty)
    } else if exists|i: int| first_bad_namespace_char(s, i) {
        let i = choose|i: int| first_bad_namespace_char(s, i);
        Err(InvalidNamespace::BadChar(i as usize, s[i]))
    } else {
        Ok(())
    }
}

/// The outcome of validating `s` as a path.
pub open spec fn path_check(s: Seq<char>) -> Result<(), InvalidPath> {
    if s.len() == 0 {
        Err(InvalidPath::Empty)
    } else if exists|i: int| first_bad_path_char(s, i) {
        let i = choose|i: int| first_bad_path_char(s, i);
        Err(InvalidPath::BadChar(i as usize, s[i]))
    } else {
        Ok(())
    }
}

/// The outcome of parsing `s` as `namespace:path`, split at the first `:`;
/// a bad path character is reported at its position in the whole of `s`.
pub open spec fn parse_check(s: Seq<char>) -> Result<(Seq<char>, Seq<char>), NSIDParseError> {
    if exists|k: int| first_colon(s, k) {
        let k = choose|k: int| first_colon(s, k);
        let ns = s.take(k);
        let p = s.skip(k + 1);
        match namespace_check(ns) {
            Err(e) => Err(NSIDParseError::InvalidNamespace(e)),
            Ok(_) => match path_check(p) {
                Err(InvalidPath::Empty) => Err(NSIDParseError::InvalidPath(InvalidPath::Empty)),
                Err(InvalidPath::BadChar(i, c)) => Err(
                    NSIDParseError::InvalidPath(InvalidPath::BadChar((k + 1 + i) as usize, c)),
                ),
                Ok(_) => Ok((ns, p)),
            },
        }
    } else {
        Err(NSIDParseError::NoSeparator)
    }
}

/// The text of an identifier with the given parts.
pub open spec fn nsid_text(ns: Seq<char>, p: Seq<char>) -> Seq<char> {
    ns + seq![':'] + p
}

/// The strings held after `s` has been interned into `strs`.
pub open spec fn with_interned(strs: Seq<Seq<char>>, s: Seq<char>) -> Seq<Seq<char>> {
    if strs.contains(s) {
        strs
    } else {
        strs.push(s)
    }
}

pub proof fn lemma_namespace_check_ok(s: Seq<char>)
    ensures
        namespace_check(s) is Ok <==> valid_namespace(s),
{
    if valid_namespace(s) {
        assert(!exists|i: int| first_bad_namespace_char(s, i));
    } else if s.len() > 0 {
        let i = choose|i: int| 0 <= i < s.len() && !is_namespace_char(s[i]);
        lemma_first_bad_namespace_exists(s, i);
    }
}

proof fn lemma_first_bad_namespace_exists(s: Seq<char>, i: int)
    requires
        0 <= i < s.len(),
        !is_namespace_char(s[i]),
    ensures
        exists|j: int| first_bad_namespace_char(s, j),
    decreases i,
{
    if forall|j: int| 0 <= j < i ==> is_namespace_char(#[trigger] s[j]) {
        assert(first_bad_namespace_char(s, i));
    } else {
        let j = choose|j: int| 0 <= j < i && !is_namespace_char(#[trigger] s[j]);
        lemma_first_bad_namespace_exists(s, j);
    }
}

pub proof fn lemma_path_check_ok(s: Seq<char>)
    ensures
        path_check(s) is Ok <==> valid_path(s),
{
    if valid_path(s) {
        assert(!exists|i: int| first_bad_path_char(s, i));
    } else if s.len() > 0 {
        let i = choose|i: int| 0 <= i < s.len() && !is_path_char(s[i]);
        lemma_first_bad_path_exists(s, i);
    }
}

proof fn lemma_first_bad_path_exists(s: Seq<char>, i: int)
    requires
        0 <= i < s.len(),
        !is_path_char(s[i]),
    ensures
        exists|j: int| first_bad_path_char(s, j),
    decreases i,
{
    if forall|j: int| 0 <= j < i ==> is_path_char(#[trigger] s[j]) {
        assert(first_bad_path_char(s, i));
    } else {
        let j = choose|j: int| 0 <= j < i && !is_path_char(#[trigger] s[j]);
        lemma_first_bad_path_exists(s, j);
    }
}

// ---------------------------------------------------------------------------
// The interner
// ---------------------------------------------------------------------------

#[verifier::external_type_specification]
#[verifier::external_body]
#[verifier::reject_recursive_types(K)]
#[verifier::reject_recursive_types(S)]
pub struct ExRodeo<K, S>(lasso::Rodeo<K, S>);

#[verifier::external_type_specification]
#[verifier::external_body]
pub struct ExSpur(lasso::Spur);

#[verifier::external_type_specification]
#[verifier::external_body]
pub struct ExLassoError(lasso::LassoError);

/// The strings a `lasso::Rodeo` holds, each at the index of its key.
pub uninterp spec fn rodeo_strings(r: lasso::Rodeo) -> Seq<Seq<char>>;

/// Relies on lasso's `Rodeo::new`: a new interner holds no strings.
#[verifier::external_body]
fn rodeo_new() -> (r: lasso::Rodeo)
    ensures
        rodeo_strings(r) == Seq::<Seq<char>>::empty(),
{
    lasso::Rodeo::new()
}

/// Relies on lasso's `Rodeo::try_get_or_intern` with `Spur` keys: a string
/// already held gives back its key and nothing changes; another one is pushed
/// and gets the next index, which `Spur` keeps below `u32::MAX`; on an error
/// nothing was pushed.
#[verifier::external_body]
fn rodeo_intern(r: &mut lasso::Rodeo, s: &str) -> (k: Result<usize, lasso::LassoError>)
    ensures
        match k {
            Ok(k) => if rodeo_strings(*old(r)).contains(s@) {
                &&& rodeo_strings(*final(r)) == rodeo_strings(*old(r))
                &&& k < rodeo_strings(*old(r)).len()
                &&& rodeo_strings(*old(r))[k as int] == s@
            } else {
                &&& rodeo_strings(*final(r)) == rodeo_strings(*old(r)).push(s@)
                &&& k == rodeo_strings(*old(r)).len()
                &&& k < u32::MAX
            },
            Err(_) => {
                &&& rodeo_strings(*final(r)) == rodeo_strings(*old(r))
                &&& !rodeo_strings(*old(r)).contains(s@)
            },
        },
{
    match r.try_get_or_intern(s) {
        Ok(key) => Ok(lasso::Key::into_usize(key)),
        Err(e) => Err(e),
    }
}

/// Relies on lasso's `Spur::try_from_usize` (any index below `u32::MAX`) and
/// `Rodeo::resolve`: the string held at that index.
#[verifier::external_body]
fn rodeo_resolve(r: &lasso::Rodeo, k: usize) -> (s: String)
    requires
        k < rodeo_strings(*r).len(),
        k < u32::MAX,
    ensures
        s@ == rodeo_strings(*r)[k as int],
{
    let key: lasso::Spur = lasso::Key::try_from_usize(k).unwrap();
    r.resolve(&key).to_owned()
}

/// Relies on `LassoError`'s `Display`: the message of an interner error.
#[verifier::external_body]
fn lasso_error_message(e: &lasso::LassoError) -> (m: String) {
    e.to_string()
}

/// Relies on `str::split_once`: the text before and after the first `':'`.
#[verifier::external_body]
fn split_once_colon(s: &str) -> (r: Option<(&str, &str)>)
    ensures
        match r {
            None => !s@.contains(':'),
            Some((a, b)) => s@ == a@ + seq![':'] + b@ && !a@.contains(':'),
        },
{
    s.split_once(':')
}

/// A table of distinct strings, each addressed by a small integer token.
pub struct Interner {
    rodeo: lasso::Rodeo,
}

impl Interner {
    /// The strings held, each at the index of its token.
    pub closed spec fn strings(&self) -> Seq<Seq<char>> {
        rodeo_strings(self.rodeo)
    }

    pub open spec fn wf(&self) -> bool {
        &&& self.strings().no_duplicates()
        &&& self.strings().len() <= u32::MAX
    }

    pub fn new() -> (r: Self)
        ensures
            r.wf(),
            r.strings() == Seq::<Seq<char>>::empty(),
    {
        Interner { rodeo: rodeo_new() }
    }

    /// The token of `s`, adding `s` if it is not held yet.
    pub fn intern(&mut self, s: &str) -> (r: Result<usize, NSIDParseError>)
        requires
            old(self).wf(),
        ensures
            final(self).wf(),
            match r {
                Ok(k) => {
                    &&& final(self).strings() == with_interned(old(self).strings(), s@)
                    &&& k < final(self).strings().len()
                    &&& final(self).strings()[k as int] == s@
                },
                Err(e) => {
                    &&& e is InternerError
                    &&& final(self).strings() == old(self).strings()
                    &&& !old(self).strings().contains(s@)
                },
            },
    {
        match rodeo_intern(&mut self.rodeo, s) {
            Ok(k) => {
                proof {
                    let olds = old(self).strings();
                    if !olds.contains(s@) {
                        let news = olds.push(s@);
                        assert forall|i: int, j: int|
                            0 <= i < news.len() && 0 <= j < news.len() && i != j
                                implies news[i] != news[j] by {
                            if i < olds.len() && j < olds.len() {
                            } else if i == olds.len() {
                                assert(news[j] == olds[j]);
                            } else {
                                assert(news[i] == olds[i]);
                            }
                        }
                    }
                }
                Ok(k)
            },
            Err(e) => Err(NSIDParseError::InternerError(lasso_error_message(&e))),
        }
    }

    /// The string of token `k`.
    pub fn resolve(&self, k: usize) -> (r: String)
        requires
            self.wf(),
            k < self.strings().len(),
        ensures
            r@ == self.strings()[k as int],
    {
        rodeo_resolve(&self.rodeo, k)
    }
}

// ---------------------------------------------------------------------------
// Identifiers
// ---------------------------------------------------------------------------

/// The characters of `s`, in order.
fn chars_of(s: &str) -> (r: Vec<char>)
    ensures
        r@ == s@,
{
    let mut it = s.chars();
    let mut out: Vec<char> = Vec::new();
    loop
        invariant
            it.obeys_prophetic_iter_laws(),
            out@ + it.remaining() == s@,
        decreases s@.len() - out@.len(),
    {
        match it.next() {
            Some(c) => {
                out.push(c);
            },
            None => {
                return out;
            },
        }
    }
}

/// An identifier `namespace:path`, held as the interner tokens of its two parts.
#[derive(Clone, Copy, PartialEq, Eq, Hash, Debug, Structural)]
pub struct NamespacedID {
    namespace: usize,
    path: usize,
}

impl NamespacedID {
    /// The tokens of the namespace and the path.
    pub closed spec fn key(&self) -> (usize, usize) {
        (self.namespace, self.path)
    }

    pub(crate) fn tokens(&self) -> (r: (usize, usize))
        ensures
            r == self.key(),
    {
        (self.namespace, self.path)
    }

    /// Both tokens address strings of `strs`.
    pub open spec fn valid_in(&self, strs: Seq<Seq<char>>) -> bool {
        self.key().0 < strs.len() && self.key().1 < strs.len()
    }

    pub open spec fn namespace_in(&self, strs: Seq<Seq<char>>) -> Seq<char> {
        strs[self.key().0 as int]
    }

    pub open spec fn path_in(&self, strs: Seq<Seq<char>>) -> Seq<char> {
        strs[self.key().1 as int]
    }

    pub fn is_valid_namespace_char(chr: char) -> (r: bool)
        ensures
            r == is_namespace_char(chr),
    {
        ('a' <= chr && chr <= 'z') || ('0' <= chr && chr <= '9') || chr == '-' || chr == '_'
    }

    pub fn is_valid_path_char(chr: char) -> (r: bool)
        ensures
            r == is_path_char(chr),
    {
        Self::is_valid_namespace_char(chr) || chr == '.' || chr == '/'
    }

    /// Checks `s` as a namespace, reporting the first bad character by its char index.
    pub fn check_namespace(s: &str) -> (r: Result<(), InvalidNamespace>)
        ensures
            r == namespace_check(s@),
    {
        let cs = chars_of(s);
        if cs.len() == 0 {
            return Err(InvalidNamespace::Empty);
        }
        let mut i: usize = 0;
        while i < cs.len()
            invariant
                cs@ == s@,
                i <= cs@.len(),
                forall|j: int| 0 <= j < i ==> is_namespace_char(#[trigger] cs@[j]),
            decreases cs@.len() - i,
        {
            if !Self::is_valid_namespace_char(cs[i]) {
                proof {
                    assert(first_bad_namespace_char(s@, i as int));
                    let k = choose|k: int| first_bad_namespace_char(s@, k);
                    assert(k == i) by {
                        if k < i {
                            assert(is_namespace_char(s@[k]));
                        } else if k > i {
                            assert(is_namespace_char(s@[i as int]));
                        }
                    }
                }
                return Err(InvalidNamespace::BadChar(i, cs[i]));
            }
            i = i + 1;
        }
        proof {
            assert(!exists|k: int| first_bad_namespace_char(s@, k));
        }
        Ok(())
    }

    /// Checks `s` as a path, reporting the first bad character by its char index.
    pub fn check_path(s: &str) -> (r: Result<(), InvalidPath>)
        ensures
            r == path_check(s@),
    {
        let cs = chars_of(s);
        if cs.len() == 0 {
            return Err(InvalidPath::Empty);
        }
        let mut i: usize = 0;
        while i < cs.len()
            invariant
                cs@ == s@,
                i <= cs@.len(),
                forall|j: int| 0 <= j < i ==> is_path_char(#[trigger] cs@[j]),
            decreases cs@.len() - i,
        {
            if !Self::is_valid_path_char(cs[i]) {
                proof {
                    assert(first_bad_path_char(s@, i as int));
                    let k = choose|k: int| first_bad_path_char(s@, k);
                    assert(k == i) by {
                        if k < i {
                            assert(is_path_char(s@[k]));
                        } else if k > i {
                            assert(is_path_char(s@[i as int]));
                        }
                    }
                }
                return Err(InvalidPath::BadChar(i, cs[i]));
            }
            i = i + 1;
        }
        proof {
            assert(!exists|k: int| first_bad_path_char(s@, k));
        }
        Ok(())
    }
}


/// What building an identifier from the parts `ns` and `p` leaves behind:
/// on success both parts are interned and the identifier holds their tokens;
/// otherwise the interner ran out of room.
pub open spec fn built_from_parts(
    r: Result<NamespacedID, NSIDParseError>,
    before: Seq<Seq<char>>,
    after: Seq<Seq<char>>,
    ns: Seq<char>,
    p: Seq<char>,
) -> bool {
    match r {
        Ok(id) => {
            &&& after == with_interned(with_interned(before, ns), p)
            &&& id.valid_in(after)
            &&& id.namespace_in(after) == ns
            &&& id.path_in(after) == p
        },
        Err(e) => e is InternerError && !(before.contains(ns) && before.contains(p)),
    }
}

/// The outcome of validating `ns` as a namespace and `p` as a path.
pub open spec fn parts_check(ns: Seq<char>, p: Seq<char>) -> Result<
    (Seq<char>, Seq<char>),
    NSIDParseError,
> {
    match namespace_check(ns) {
        Err(e) => Err(NSIDParseError::InvalidNamespace(e)),
        Ok(_) => match path_check(p) {
            Err(e) => Err(NSIDParseError::InvalidPath(e)),
            Ok(_) => Ok((ns, p)),
        },
    }
}

impl NamespacedID {
    /// The text `namespace:path` of this identifier.
    pub open spec fn text_in(&self, strs: Seq<Seq<char>>) -> Seq<char> {
        nsid_text(self.namespace_in(strs), self.path_in(strs))
    }

    fn intern_parts(ns: &str, p: &str, interner: &mut Interner) -> (r: Result<Self, NSIDParseError>)
        requires
            old(interner).wf(),
        ensures
            final(interner).wf(),
            old(interner).strings().is_prefix_of(final(interner).strings()),
            built_from_parts(r, old(interner).strings(), final(interner).strings(), ns@, p@),
    {
        let namespace = match interner.intern(ns) {
            Ok(k) => k,
            Err(e) => {
                return Err(e);
            },
        };
        let ghost mid = interner.strings();
        let path = match interner.intern(p) {
            Ok(k) => k,
            Err(e) => {
                proof {
                    if old(interner).strings().contains(p@) {
                        let j = choose|j: int|
                            0 <= j < old(interner).strings().len() && old(interner).strings()[j]
                                == p@;
                        assert(mid[j] == p@);
                    }
                }
                return Err(e);
            },
        };
        proof {
            assert(mid.is_prefix_of(interner.strings()));
        }
        Ok(NamespacedID { namespace, path })
    }

    /// Parses `s` as `namespace:path`, split at its first `:`, and interns both parts.
    pub fn new(s: &str, interner: &mut Interner) -> (r: Result<Self, NSIDParseError>)
        requires
            old(interner).wf(),
        ensures
            final(interner).wf(),
            old(interner).strings().is_prefix_of(final(interner).strings()),
            match parse_check(s@) {
                Err(e) => {
                    &&& r == Err::<Self, NSIDParseError>(e)
                    &&& final(interner).strings() == old(interner).strings()
                },
                Ok((ns, p)) => built_from_parts(
                    r,
                    old(interner).strings(),
                    final(interner).strings(),
                    ns,
                    p,
                ),
            },
    {
        let all = chars_of(s);
        match split_once_colon(s) {
            None => {
                proof {
                    if exists|k: int| first_colon(s@, k) {
                        let k = choose|k: int| first_colon(s@, k);
                        assert(s@.contains(s@[k]));
                    }
                }
                Err(NSIDParseError::NoSeparator)
            },
            Some((a, b)) => {
                let ghost k = a@.len() as int;
                proof {
                    assert(s@[k] == ':');
                    assert forall|j: int| 0 <= j < k implies #[trigger] s@[j] != ':' by {
                        assert(s@[j] == a@[j]);
                        if a@[j] == ':' {
                            assert(a@.contains(a@[j]));
                        }
                    }
                    assert(first_colon(s@, k));
                    let k2 = choose|k2: int| first_colon(s@, k2);
                    assert(k2 == k) by {
                        if k2 < k {
                            assert(s@[k2] != ':');
                        } else if k2 > k {
                            assert(s@[k] != ':');
                        }
                    }
                    assert(s@.take(k) =~= a@);
                    assert(s@.skip(k + 1) =~= b@);
                }
                match Self::check_namespace(a) {
                    Err(e) => {
                        return Err(NSIDParseError::InvalidNamespace(e));
                    },
                    Ok(()) => {},
                }
                match Self::check_path(b) {
                    Err(InvalidPath::Empty) => {
                        return Err(NSIDParseError::InvalidPath(InvalidPath::Empty));
                    },
                    Err(InvalidPath::BadChar(i, c)) => {
                        let ns_len = chars_of(a).len();
                        let total: usize = all.len();
                        assert(total == ns_len + 1 + b@.len());
                        proof {
                            assert(b@.len() > 0);
                            assert(exists|j: int| first_bad_path_char(b@, j));
                            let j = choose|j: int| first_bad_path_char(b@, j);
                            assert(first_bad_path_char(b@, j));
                            assert(i as int == j);
                        }
                        return Err(
                            NSIDParseError::InvalidPath(InvalidPath::BadChar(ns_len + 1 + i, c)),
                        );
                    },
                    Ok(()) => {},
                }
                Self::intern_parts(a, b, interner)
            },
        }
    }

    /// Builds an identifier from a namespace and a path, each checked against its own alphabet.
    pub fn new_from_parts(namespace: &str, path: &str, interner: &mut Interner) -> (r: Result<
        Self,
        NSIDParseError,
    >)
        requires
            old(interner).wf(),
        ensures
            final(interner).wf(),
            old(interner).strings().is_prefix_of(final(interner).strings()),
            match parts_check(namespace@, path@) {
                Err(e) => {
                    &&& r == Err::<Self, NSIDParseError>(e)
                    &&& final(interner).strings() == old(interner).strings()
                },
                Ok((ns, p)) => built_from_parts(
                    r,
                    old(interner).strings(),
                    final(interner).strings(),
                    ns,
                    p,
                ),
            },
    {
        match Self::check_namespace(namespace) {
            Err(e) => {
                return Err(NSIDParseError::InvalidNamespace(e));
            },
            Ok(()) => {},
        }
        match Self::check_path(path) {
            Err(e) => {
                return Err(NSIDParseError::InvalidPath(e));
            },
            Ok(()) => {},
        }
        Self::intern_parts(namespace, path, interner)
    }

    /// This identifier's namespace.
    pub fn namespace(&self, interner: &Interner) -> (r: String)
        requires
            interner.wf(),
            self.valid_in(interner.strings()),
        ensures
            r@ == self.namespace_in(interner.strings()),
    {
        interner.resolve(self.namespace)
    }

    /// This identifier's path.
    pub fn path(&self, interner: &Interner) -> (r: String)
        requires
            interner.wf(),
            self.valid_in(interner.strings()),
        ensures
            r@ == self.path_in(interner.strings()),
    {
        interner.resolve(self.path)
    }

    /// The namespace and the path of this identifier.
    pub fn dissolve(&self, interner: &Interner) -> (r: (String, String))
        requires
            interner.wf(),
            self.valid_in(interner.strings()),
        ensures
            r.0@ == self.namespace_in(interner.strings()),
            r.1@ == self.path_in(interner.strings()),
    {
        (self.namespace(interner), self.path(interner))
    }

    /// The text `namespace:path` of this identifier.
    pub fn to_string(&self, interner: &Interner) -> (r: String)
        requires
            interner.wf(),
            self.valid_in(interner.strings()),
        ensures
            r@ == self.text_in(interner.strings()),
    {
        let ns = self.namespace(interner);
        let p = self.path(interner);
        proof {
            reveal_strlit(":");
        }
        let t = ns.concat(":");
        t.concat(p.as_str())
    }
}

// ---------------------------------------------------------------------------
// Laws of the text form
// ---------------------------------------------------------------------------

/// The text of a valid namespace and a valid path parses back into those two parts.
pub proof fn lemma_parse_text(ns: Seq<char>, p: Seq<char>)
    requires
        valid_namespace(ns),
        valid_path(p),
    ensures
        parse_check(nsid_text(ns, p)) == Ok::<(Seq<char>, Seq<char>), NSIDParseError>((ns, p)),
{
    let s = nsid_text(ns, p);
    let k = ns.len() as int;
    assert(s[k] == ':');
    assert forall|j: int| 0 <= j < k implies #[trigger] s[j] != ':' by {
        assert(s[j] == ns[j]);
        assert(is_namespace_char(ns[j]));
    }
    assert(first_colon(s, k));
    let k2 = choose|k2: int| first_colon(s, k2);
    assert(k2 == k) by {
        if k2 < k {
            assert(s[k2] != ':');
        } else if k2 > k {
            assert(s[k] != ':');
        }
    }
    assert(s.take(k) =~= ns);
    assert(s.skip(k + 1) =~= p);
    lemma_namespace_check_ok(ns);
    lemma_path_check_ok(p);
}

/// Round trip: in an interner that holds the parts of a valid identifier `id`,
/// the identifier whose parts are those that parsing the text of `id` gives is `id`.
pub proof fn lemma_round_trip(strs: Seq<Seq<char>>, id: NamespacedID, parsed: NamespacedID)
    requires
        strs.no_duplicates(),
        id.valid_in(strs),
        parsed.valid_in(strs),
        valid_namespace(id.namespace_in(strs)),
        valid_path(id.path_in(strs)),
        parse_check(id.text_in(strs)) == Ok::<(Seq<char>, Seq<char>), NSIDParseError>(
            (parsed.namespace_in(strs), parsed.path_in(strs)),
        ),
    ensures
        parsed == id,
{
    lemma_parse_text(id.namespace_in(strs), id.path_in(strs));
    assert(parsed.namespace == id.namespace);
    assert(parsed.path == id.path);
}

/// The first character outside the namespace alphabet is the one reported, by its char index.
pub proof fn lemma_namespace_bad_char(s: Seq<char>, i: int)
    requires
        first_bad_namespace_char(s, i),
    ensures
        namespace_check(s) == Err::<(), InvalidNamespace>(InvalidNamespace::BadChar(i as usize, s[i])),
{
    let k = choose|k: int| first_bad_namespace_char(s, k);
    assert(k == i) by {
        if k < i {
            assert(is_namespace_char(s[k]));
        } else if k > i {
            assert(is_namespace_char(s[i]));
        }
    }
}

/// Parsing reports the first bad namespace character by its char index in the whole text.
pub proof fn lemma_parse_bad_namespace_char(s: Seq<char>, k: int, i: int)
    requires
        first_colon(s, k),
        first_bad_namespace_char(s.take(k), i),
    ensures
        parse_check(s) == Err::<(Seq<char>, Seq<char>), NSIDParseError>(
            NSIDParseError::InvalidNamespace(InvalidNamespace::BadChar(i as usize, s[i])),
        ),
{
    lemma_first_colon_unique(s, k);
    lemma_namespace_bad_char(s.take(k), i);
}

/// Parsing reports a bad path character at its char index in the whole text:
/// its index in the path, plus the namespace's length and one for the `:`.
pub proof fn lemma_parse_bad_path_char(s: Seq<char>, k: int, j: int)
    requires
        s.len() <= usize::MAX,
        first_colon(s, k),
        valid_namespace(s.take(k)),
        first_bad_path_char(s.skip(k + 1), j),
    ensures
        parse_check(s) == Err::<(Seq<char>, Seq<char>), NSIDParseError>(
            NSIDParseError::InvalidPath(InvalidPath::BadChar((k + 1 + j) as usize, s[k + 1 + j])),
        ),
{
    lemma_first_colon_unique(s, k);
    lemma_namespace_check_ok(s.take(k));
    let p = s.skip(k + 1);
    let j2 = choose|j2: int| first_bad_path_char(p, j2);
    assert(j2 == j) by {
        if j2 < j {
            assert(is_path_char(p[j2]));
        } else if j2 > j {
            assert(is_path_char(p[j]));
        }
    }
}

/// A text without `:` fails with the missing-separator error.
pub proof fn lemma_no_separator(s: Seq<char>)
    requires
        !s.contains(':'),
    ensures
        parse_check(s) == Err::<(Seq<char>, Seq<char>), NSIDParseError>(NSIDParseError::NoSeparator),
{
    if exists|k: int| first_colon(s, k) {
        let k = choose|k: int| first_colon(s, k);
        assert(s.contains(s[k]));
    }
}

proof fn lemma_first_colon_unique(s: Seq<char>, k: int)
    requires
        first_colon(s, k),
    ensures
        (choose|k2: int| first_colon(s, k2)) == k,
{
    let k2 = choose|k2: int| first_colon(s, k2);
    assert(k2 == k) by {
        if k2 < k {
            assert(s[k2] != ':');
        } else if k2 > k {
            assert(s[k] != ':');
        }
    }
}

} // verus!
