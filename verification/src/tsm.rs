//! The path model: addressing locations in the TSM configfs tree as
//! `<prefix>/<subsystem>[/<entry>[/<attribute>]]`, rooted at the fixed
//! prefix `/sys/kernel/config/tsm`.

use vstd::prelude::*;
use vstd::string::StrSliceExecFns;
use vstd::string::StringExecFns;
use crate::client::StoragePort;

verus! {

/// A failure of the path model or of reading a numeric attribute.
#[derive(Debug)]
pub enum TsmError {
    /// The string does not address a location in the TSM tree.
    InvalidInput { input: String },
    /// The storage port failed while accessing `path`.
    Io { path: String },
    /// The file at `path` did not hold decimal text fitting a `u64`.
    Parse { path: String },
}

/// An addressable location in the TSM configfs tree.  `entry` may be
/// empty only when addressing a subsystem root; `attribute` names a
/// leaf within an entry.
#[derive(Debug, Clone)]
pub struct TsmPath {
    pub subsystem: String,
    pub entry: String,
    pub attribute: Option<String>,
}

/// The fixed prefix every TSM path is rooted at.
pub open spec fn spec_tsm_prefix() -> Seq<char> {
    "/sys/kernel/config/tsm"@
}

pub open spec fn attr_view(a: Option<String>) -> Option<Seq<char>> {
    match a {
        Some(s) => Some(s@),
        None => None,
    }
}

/// The canonical rendering of a path: prefix, subsystem and entry, and
/// the attribute when present, separated by slashes.
pub open spec fn spec_render(
    subsystem: Seq<char>,
    entry: Seq<char>,
    attribute: Option<Seq<char>>,
) -> Seq<char> {
    match attribute {
        Some(a) => spec_tsm_prefix() + seq!['/'] + subsystem + seq!['/'] + entry + seq!['/'] + a,
        None => spec_tsm_prefix() + seq!['/'] + subsystem + seq!['/'] + entry,
    }
}

pub open spec fn trim_slashes(s: Seq<char>) -> Seq<char>
    decreases s.len(),
{
    if s.len() > 0 && s[0] == '/' {
        trim_slashes(s.skip(1))
    } else {
        s
    }
}

pub open spec fn count_char(s: Seq<char>, c: char) -> int
    decreases s.len(),
{
    if s.len() == 0 {
        0
    } else {
        count_char(s.drop_last(), c) + if s.last() == c {
            1int
        } else {
            0int
        }
    }
}

pub open spec fn first_idx(s: Seq<char>, c: char) -> int
    decreases s.len(),
{
    if s.len() == 0 {
        0
    } else if s[0] == c {
        0
    } else {
        1 + first_idx(s.skip(1), c)
    }
}

/// What parsing a path string yields: the subsystem, entry and optional
/// attribute, or nothing when the string is not a TSM address.  The
/// prefix must be present; leading slashes of the remainder are
/// dropped; one, two or three slash-separated segments map to
/// subsystem, entry and attribute.
pub open spec fn spec_parse(s: Seq<char>) -> Option<(Seq<char>, Seq<char>, Option<Seq<char>>)> {
    let p = spec_tsm_prefix();
    if s.len() < p.len() || s.subrange(0, p.len() as int) != p {
        None
    } else {
        let rest = trim_slashes(s.skip(p.len() as int));
        if rest.len() == 0 {
            None
        } else {
            let c = count_char(rest, '/');
            if c == 0 {
                Some((rest, Seq::empty(), None))
            } else if c == 1 {
                let i = first_idx(rest, '/');
                Some((rest.take(i), rest.skip(i + 1), None))
            } else if c == 2 {
                let i = first_idx(rest, '/');
                let j = i + 1 + first_idx(rest.skip(i + 1), '/');
                Some((rest.take(i), rest.subrange(i + 1, j), Some(rest.skip(j + 1))))
            } else {
                None
            }
        }
    }
}

impl TsmPath {
    /// Renders the path as its canonical absolute string.
    pub fn to_string(&self) -> (r: String)
        ensures
            r@ == spec_render(self.subsystem@, self.entry@, attr_view(self.attribute)),
    {
        let mut s = String::from_str("/sys/kernel/config/tsm");
        proof {
            reveal_strlit("/");
            reveal_strlit("/sys/kernel/config/tsm");
            assert("/"@ =~= seq!['/']);
        }
        s.append("/");
        s.append(self.subsystem.as_str());
        s.append("/");
        s.append(self.entry.as_str());
        match &self.attribute {
            Some(a) => {
                s.append("/");
                s.append(a.as_str());
                assert(s@ =~= spec_render(self.subsystem@, self.entry@, attr_view(self.attribute)));
            },
            None => {
                assert(s@ =~= spec_render(self.subsystem@, self.entry@, attr_view(self.attribute)));
            },
        }
        s
    }

    /// A copy of the path with its attribute set, addressing one
    /// property of the same entry.
    pub fn with_attr(self, attr: &str) -> (r: TsmPath)
        ensures
            r.subsystem@ == self.subsystem@,
            r.entry@ == self.entry@,
            attr_view(r.attribute) == Some(attr@),
    {
        TsmPath { subsystem: self.subsystem, entry: self.entry, attribute: Some(attr.to_owned()) }
    }

    /// The rendered address of the property `attr` of this path's
    /// entry, leaving the path itself untouched.
    pub fn attr_string(&self, attr: &str) -> (r: String)
        ensures
            r@ == spec_render(self.subsystem@, self.entry@, Some(attr@)),
    {
        let p = TsmPath {
            subsystem: self.subsystem.clone(),
            entry: self.entry.clone(),
            attribute: Some(attr.to_owned()),
        };
        p.to_string()
    }
}

proof fn lemma_trim_slashes_is_skip(s: Seq<char>, m: int)
    requires
        0 <= m <= s.len(),
        forall|j: int| 0 <= j < m ==> s[j] == '/',
        m == s.len() || s[m] != '/',
    ensures
        trim_slashes(s) == s.skip(m),
    decreases m,
{
    if m == 0 {
        assert(s.skip(0) =~= s);
    } else {
        lemma_trim_slashes_is_skip(s.skip(1), m - 1);
        assert(s.skip(1).skip(m - 1) =~= s.skip(m));
    }
}

proof fn lemma_first_idx_at(s: Seq<char>, c: char, m: int)
    requires
        0 <= m < s.len(),
        s[m] == c,
        forall|j: int| 0 <= j < m ==> s[j] != c,
    ensures
        first_idx(s, c) == m,
    decreases m,
{
    if m > 0 {
        lemma_first_idx_at(s.skip(1), c, m - 1);
    }
}

proof fn lemma_count_concat(a: Seq<char>, b: Seq<char>, c: char)
    ensures
        count_char(a + b, c) == count_char(a, c) + count_char(b, c),
    decreases b.len(),
{
    if b.len() == 0 {
        assert(a + b =~= a);
    } else {
        lemma_count_concat(a, b.drop_last(), c);
        assert((a + b).drop_last() =~= a + b.drop_last());
        assert((a + b).last() == b.last());
    }
}

proof fn lemma_count_zero(s: Seq<char>, c: char)
    requires
        forall|j: int| 0 <= j < s.len() ==> s[j] != c,
    ensures
        count_char(s, c) == 0,
    decreases s.len(),
{
    if s.len() > 0 {
        lemma_count_zero(s.drop_last(), c);
    }
}

/// Parses an absolute path string as a TSM address: the fixed prefix,
/// then one, two or three slash-separated segments.
#[verifier::loop_isolation(false)]
pub fn parse_tsm_path(filepath: &str) -> (r: Result<TsmPath, TsmError>)
    ensures
        r matches Ok(p) ==> spec_parse(filepath@) == Some(
            (p.subsystem@, p.entry@, attr_view(p.attribute)),
        ),
        r is Err ==> spec_parse(filepath@) is None,
        r matches Err(e) ==> e matches TsmError::InvalidInput { input } && input@ == filepath@,
{
    let n: usize = filepath.unicode_len();
    let prefix: &str = "/sys/kernel/config/tsm";
    let plen: usize = prefix.unicode_len();
    proof {
        assert(prefix@ == spec_tsm_prefix());
    }
    if n < plen {
        return Err(TsmError::InvalidInput { input: filepath.to_owned() });
    }
    let mut i: usize = 0;
    while i < plen
        invariant
            0 <= i <= plen,
            plen <= n,
            n == filepath@.len(),
            plen as nat == spec_tsm_prefix().len(),
            prefix@ == spec_tsm_prefix(),
            forall|j: int| 0 <= j < i ==> filepath@[j] == spec_tsm_prefix()[j],
        decreases plen - i,
    {
        if filepath.get_char(i) != prefix.get_char(i) {
            proof {
                assert(filepath@.subrange(0, plen as int)[i as int] != spec_tsm_prefix()[i as int]);
            }
            return Err(TsmError::InvalidInput { input: filepath.to_owned() });
        }
        i = i + 1;
    }
    proof {
        assert(filepath@.subrange(0, plen as int) =~= spec_tsm_prefix());
    }
    let mut k: usize = plen;
    while k < n && filepath.get_char(k) == '/'
        invariant
            plen <= k <= n,
            n == filepath@.len(),
            forall|j: int| plen <= j < k ==> filepath@[j] == '/',
        decreases n - k,
    {
        k = k + 1;
    }
    let ghost rest = trim_slashes(filepath@.skip(plen as int));
    proof {
        lemma_trim_slashes_is_skip(filepath@.skip(plen as int), k - plen as int);
        assert(filepath@.skip(plen as int).skip(k - plen as int) =~= filepath@.skip(k as int));
        assert(rest == filepath@.skip(k as int));
    }
    if k == n {
        proof {
            assert(rest =~= Seq::<char>::empty());
        }
        return Err(TsmError::InvalidInput { input: filepath.to_owned() });
    }
    let mut cnt: usize = 0;
    let mut i1: usize = 0;
    let mut i2: usize = 0;
    let mut j: usize = k;
    while j < n
        invariant
            k <= j <= n,
            k < n,
            n == filepath@.len(),
            rest == filepath@.skip(k as int),
            cnt as int == count_char(filepath@.subrange(k as int, j as int), '/'),
            cnt <= j - k,
            cnt == 0 ==> forall|t: int| k <= t < j ==> filepath@[t] != '/',
            cnt >= 1 ==> k <= i1 < j && filepath@[i1 as int] == '/' && (forall|t: int|
                k <= t < i1 ==> filepath@[t] != '/'),
            cnt == 1 ==> forall|t: int| i1 < t < j ==> filepath@[t] != '/',
            cnt >= 2 ==> i1 < i2 < j && filepath@[i2 as int] == '/' && (forall|t: int|
                i1 < t < i2 ==> filepath@[t] != '/'),
        decreases n - j,
    {
        proof {
            assert(filepath@.subrange(k as int, j + 1).drop_last() =~= filepath@.subrange(
                k as int,
                j as int,
            ));
        }
        if filepath.get_char(j) == '/' {
            if cnt == 0 {
                i1 = j;
            } else if cnt == 1 {
                i2 = j;
            }
            cnt = cnt + 1;
        }
        j = j + 1;
    }
    proof {
        assert(filepath@.subrange(k as int, n as int) =~= rest);
    }
    if cnt == 0 {
        let subsystem = filepath.substring_char(k, n).to_owned();
        assert(subsystem@ =~= rest);
        Ok(TsmPath { subsystem, entry: String::new(), attribute: None })
    } else if cnt == 1 {
        proof {
            lemma_first_idx_at(rest, '/', i1 - k as int);
            assert(rest.take(i1 - k as int) =~= filepath@.subrange(k as int, i1 as int));
            assert(rest.skip(i1 - k as int + 1) =~= filepath@.subrange(i1 + 1, n as int));
        }
        let subsystem = filepath.substring_char(k, i1).to_owned();
        let entry = filepath.substring_char(i1 + 1, n).to_owned();
        Ok(TsmPath { subsystem, entry, attribute: None })
    } else if cnt == 2 {
        proof {
            lemma_first_idx_at(rest, '/', i1 - k as int);
            assert(rest.skip(i1 - k as int + 1) =~= filepath@.skip(i1 + 1));
            lemma_first_idx_at(filepath@.skip(i1 + 1), '/', i2 - i1 - 1);
            assert(rest.take(i1 - k as int) =~= filepath@.subrange(k as int, i1 as int));
            assert(rest.subrange(i1 - k as int + 1, i2 - k as int) =~= filepath@.subrange(
                i1 + 1,
                i2 as int,
            ));
            assert(rest.skip(i2 - k as int + 1) =~= filepath@.subrange(i2 + 1, n as int));
        }
        let subsystem = filepath.substring_char(k, i1).to_owned();
        let entry = filepath.substring_char(i1 + 1, i2).to_owned();
        let attribute = filepath.substring_char(i2 + 1, n).to_owned();
        Ok(TsmPath { subsystem, entry, attribute: Some(attribute) })
    } else {
        Err(TsmError::InvalidInput { input: filepath.to_owned() })
    }
}

/// Reads the file at `p` through the storage port and parses its
/// contents as whitespace-padded decimal text, as the kernel's
/// generation and index attributes hold it.
pub fn read_uint64_file<P: StoragePort>(client: &mut P, p: &str) -> (r: Result<u64, TsmError>)
    ensures
        r matches Err(e) ==> match e {
            TsmError::Io { path } => path@ == p@,
            TsmError::Parse { path } => path@ == p@,
            TsmError::InvalidInput { .. } => false,
        },
{
    match client.read_file(p) {
        Ok(data) => match crate::num::kstrtouint(data.as_slice()) {
            Some(v) => Ok(v),
            None => Err(TsmError::Parse { path: p.to_owned() }),
        },
        Err(_) => Err(TsmError::Io { path: p.to_owned() }),
    }
}

/// Parsing inverts rendering: every path whose segments are non-empty
/// where required and free of separators comes back unchanged.
pub proof fn lemma_parse_render_round_trip(
    subsystem: Seq<char>,
    entry: Seq<char>,
    attribute: Option<Seq<char>>,
)
    requires
        subsystem.len() > 0,
        forall|j: int| 0 <= j < subsystem.len() ==> subsystem[j] != '/',
        forall|j: int| 0 <= j < entry.len() ==> entry[j] != '/',
        attribute matches Some(a) ==> forall|j: int| 0 <= j < a.len() ==> a[j] != '/',
    ensures
        spec_parse(spec_render(subsystem, entry, attribute)) == Some((subsystem, entry, attribute)),
{
    let p = spec_tsm_prefix();
    let s = spec_render(subsystem, entry, attribute);
    let tail: Seq<char> = match attribute {
        Some(a) => subsystem + seq!['/'] + entry + seq!['/'] + a,
        None => subsystem + seq!['/'] + entry,
    };
    assert(s =~= p + seq!['/'] + tail);
    assert(s.subrange(0, p.len() as int) =~= p);
    let s1 = seq!['/'] + tail;
    assert(s.skip(p.len() as int) =~= s1);
    assert(s1.len() > 0 && s1[0] == '/');
    assert(s1.skip(1) =~= tail);
    assert(trim_slashes(s1) == trim_slashes(tail));
    assert(tail.len() > 0);
    assert(tail[0] == subsystem[0]);
    assert(trim_slashes(tail) == tail);
    assert(Seq::<char>::empty().len() == 0);
    assert(count_char(Seq::<char>::empty(), '/') == 0);
    assert(seq!['/'].drop_last() =~= Seq::<char>::empty());
    assert(seq!['/'].last() == '/');
    assert(count_char(seq!['/'], '/') == 1);
    lemma_count_zero(subsystem, '/');
    lemma_count_zero(entry, '/');
    match attribute {
        None => {
            lemma_count_concat(subsystem, seq!['/'], '/');
            lemma_count_concat(subsystem + seq!['/'], entry, '/');
            assert(tail =~= (subsystem + seq!['/']) + entry);
            assert(count_char(tail, '/') == 1);
            lemma_first_idx_at(tail, '/', subsystem.len() as int);
            assert(tail.take(subsystem.len() as int) =~= subsystem);
            assert(tail.skip(subsystem.len() as int + 1) =~= entry);
        },
        Some(a) => {
            lemma_count_zero(a, '/');
            lemma_count_concat(subsystem, seq!['/'], '/');
            lemma_count_concat(subsystem + seq!['/'], entry, '/');
            lemma_count_concat(subsystem + seq!['/'] + entry, seq!['/'], '/');
            lemma_count_concat(subsystem + seq!['/'] + entry + seq!['/'], a, '/');
            assert(count_char(tail, '/') == 2);
            lemma_first_idx_at(tail, '/', subsystem.len() as int);
            let i = subsystem.len() as int;
            assert(tail.skip(i + 1) =~= entry + seq!['/'] + a);
            lemma_first_idx_at(entry + seq!['/'] + a, '/', entry.len() as int);
            let j = i + 1 + entry.len() as int;
            assert(tail.take(i) =~= subsystem);
            assert(tail.subrange(i + 1, j) =~= entry);
            assert(tail.skip(j + 1) =~= a);
        },
    }
}

} // verus!
