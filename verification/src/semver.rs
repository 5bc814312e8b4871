use semver_parser::version::Identifier;
use vstd::prelude::*;

verus! {

/// One dot-separated pre-release or build identifier of a semantic version:
/// either all digits, read as a number, or a run of letters and digits, kept
/// as its bytes.
#[derive(Clone, Debug, PartialEq, Eq)]
pub enum VersionIdentifier {
    Numeric(u64),
    AlphaNumeric(Vec<u8>),
}

/// The parts of a parsed semantic version.
#[derive(Clone, Debug, PartialEq, Eq)]
pub struct SemverVersion {
    pub major: u64,
    pub minor: u64,
    pub patch: u64,
    pub pre: Vec<VersionIdentifier>,
    pub build: Vec<VersionIdentifier>,
}

/// The outcome of comparing two tags or versions.
#[derive(Clone, Copy, Debug, PartialEq, Eq, Structural)]
pub enum TagOrdering {
    Less,
    Equal,
    Greater,
}

/// The version that a tag string parses to, if it is a well-formed semantic
/// version; what it parses to depends on the characters alone.
pub uninterp spec fn semver_of(s: Seq<char>) -> Option<SemverVersion>;

/// Whether a character can stand inside one identifier piece of a version:
/// an ASCII digit or letter.
pub open spec fn is_ident_char(c: char) -> bool {
    (48 <= c as u32 && c as u32 <= 57) || (65 <= c as u32 && c as u32 <= 90) || (97 <= c as u32
        && c as u32 <= 122)
}

/// One step of the chain scan. The state holds how many pieces the current
/// hyphen-joined identifier chain has gathered, a mode (0: outside any
/// chain, 1: inside a piece, 2: directly after a chain-continuing hyphen),
/// and whether the bound holds so far. The parser recurses once per
/// chain-continuing hyphen and aborts entering recursion 256, so the scan
/// flags a hyphen that follows a chain already 256 pieces long — whether or
/// not another piece follows it.
pub open spec fn chain_scan_step(st: (nat, nat, bool), c: char) -> (nat, nat, bool) {
    let (pieces, mode, ok) = st;
    if is_ident_char(c) {
        if mode == 1 {
            (pieces, 1, ok)
        } else if mode == 2 {
            ((pieces + 1) as nat, 1, ok)
        } else {
            (1, 1, ok)
        }
    } else if c == '-' {
        if mode == 1 {
            (pieces, 2, ok && pieces <= 255)
        } else {
            (0, 0, ok)
        }
    } else {
        (0, 0, ok)
    }
}

/// The chain scan over a whole string, left to right.
pub open spec fn chain_scan(s: Seq<char>) -> (nat, nat, bool)
    decreases s.len(),
{
    if s.len() == 0 {
        (0, 0, true)
    } else {
        chain_scan_step(chain_scan(s.drop_last()), s.last())
    }
}

/// Whether every hyphen-joined identifier chain of the string stays within
/// the version parser's recursion bound.
pub open spec fn hyphen_chains_bounded(s: Seq<char>) -> bool {
    chain_scan(s).2
}

/// The version a tag yields once over-long identifier chains are screened
/// out: a tag past the parser's recursion bound counts as unparseable.
pub open spec fn checked_semver_of(s: Seq<char>) -> Option<SemverVersion> {
    if hyphen_chains_bounded(s) {
        semver_of(s)
    } else {
        None
    }
}

fn is_ident_char_exec(c: char) -> (r: bool)
    ensures
        r == is_ident_char(c),
{
    let u = c as u32;
    (48 <= u && u <= 57) || (65 <= u && u <= 90) || (97 <= u && u <= 122)
}

fn chains_bounded(s: &str) -> (r: bool)
    ensures
        r == hyphen_chains_bounded(s@),
{
    let len = s.unicode_len();
    let mut i: usize = 0;
    let mut pieces: usize = 0;
    let mut mode: u8 = 0;
    let mut ok: bool = true;
    proof {
        assert(s@.take(0) =~= Seq::empty());
    }
    while i < len
        invariant
            i <= len,
            len == s@.len(),
            pieces <= i,
            chain_scan(s@.take(i as int)) == (pieces as nat, mode as nat, ok),
        decreases len - i,
    {
        let c = s.get_char(i);
        proof {
            assert(s@.take(i + 1).drop_last() =~= s@.take(i as int));
            assert(s@.take(i + 1).last() == s@[i as int]);
        }
        if is_ident_char_exec(c) {
            if mode == 2 {
                pieces = pieces + 1;
                mode = 1;
            } else if mode == 1 {
            } else {
                pieces = 1;
                mode = 1;
            }
        } else if c == '-' {
            if mode == 1 {
                if pieces > 255 {
                    ok = false;
                }
                mode = 2;
            } else {
                pieces = 0;
                mode = 0;
            }
        } else {
            pieces = 0;
            mode = 0;
        }
        i = i + 1;
    }
    proof {
        assert(s@.take(len as int) =~= s@);
    }
    ok
}

/// Relies on semver_parser::version::parse: turns a well-formed semantic
/// version string into its numeric parts and identifier lists, and rejects
/// any other string; the outcome depends on the characters alone. The
/// parser recurses once per chain-continuing hyphen of an identifier chain
/// and aborts as soon as a chain of 256 pieces continues with a further
/// hyphen, so inputs past the chain bound are excluded here and screened
/// out by `parse_version_tag`.
#[verifier::external_body]
fn parse_semver(s: &str) -> (r: Option<SemverVersion>)
    requires
        hyphen_chains_bounded(s@),
    ensures
        r == semver_of(s@),
{
    semver_parser::version::parse(s).ok().map(|v| SemverVersion {
        major: v.major,
        minor: v.minor,
        patch: v.patch,
        pre: v.pre.into_iter().map(|i| match i {
            Identifier::Numeric(n) => VersionIdentifier::Numeric(n),
            Identifier::AlphaNumeric(a) => VersionIdentifier::AlphaNumeric(a.into_bytes()),
        }).collect(),
        build: v.build.into_iter().map(|i| match i {
            Identifier::Numeric(n) => VersionIdentifier::Numeric(n),
            Identifier::AlphaNumeric(a) => VersionIdentifier::AlphaNumeric(a.into_bytes()),
        }).collect(),
    })
}

/// Parses a version tag. A tag whose identifier chains exceed the parser's
/// recursion bound is never handed to the parser: it counts as unparseable,
/// and the catalog orders it like any other tag that fails to parse.
pub fn parse_version_tag(s: &str) -> (r: Option<SemverVersion>)
    ensures
        r == checked_semver_of(s@),
{
    if chains_bounded(s) {
        parse_semver(s)
    } else {
        None
    }
}

/// Compares two numbers.
pub open spec fn u64_cmp(a: u64, b: u64) -> TagOrdering {
    if a < b {
        TagOrdering::Less
    } else if a > b {
        TagOrdering::Greater
    } else {
        TagOrdering::Equal
    }
}

/// Byte-wise lexicographic comparison; a strict prefix sorts first.
pub open spec fn bytes_cmp(a: Seq<u8>, b: Seq<u8>) -> TagOrdering
    decreases a.len(),
{
    if a.len() == 0 && b.len() == 0 {
        TagOrdering::Equal
    } else if a.len() == 0 {
        TagOrdering::Less
    } else if b.len() == 0 {
        TagOrdering::Greater
    } else if a[0] < b[0] {
        TagOrdering::Less
    } else if a[0] > b[0] {
        TagOrdering::Greater
    } else {
        bytes_cmp(a.drop_first(), b.drop_first())
    }
}

/// Identifier order: numeric identifiers sort before alphanumeric ones,
/// numeric ones by value, alphanumeric ones byte-wise.
pub open spec fn id_cmp(a: VersionIdentifier, b: VersionIdentifier) -> TagOrdering {
    match (a, b) {
        (VersionIdentifier::Numeric(x), VersionIdentifier::Numeric(y)) => u64_cmp(x, y),
        (VersionIdentifier::Numeric(_), VersionIdentifier::AlphaNumeric(_)) => TagOrdering::Less,
        (VersionIdentifier::AlphaNumeric(_), VersionIdentifier::Numeric(_)) => TagOrdering::Greater,
        (VersionIdentifier::AlphaNumeric(x), VersionIdentifier::AlphaNumeric(y)) => bytes_cmp(
            x@,
            y@,
        ),
    }
}

/// Lexicographic comparison of identifier lists; a strict prefix sorts first.
pub open spec fn id_seq_cmp(a: Seq<VersionIdentifier>, b: Seq<VersionIdentifier>) -> TagOrdering
    decreases a.len(),
{
    if a.len() == 0 && b.len() == 0 {
        TagOrdering::Equal
    } else if a.len() == 0 {
        TagOrdering::Less
    } else if b.len() == 0 {
        TagOrdering::Greater
    } else {
        match id_cmp(a.first(), b.first()) {
            TagOrdering::Equal => id_seq_cmp(a.drop_first(), b.drop_first()),
            c => c,
        }
    }
}

/// The second comparison breaks the tie left by the first.
pub open spec fn ord_then(a: TagOrdering, b: TagOrdering) -> TagOrdering {
    if a == TagOrdering::Equal {
        b
    } else {
        a
    }
}

/// Version order: by major, then minor, then patch, then the pre-release
/// identifier list, then the build identifier list, each lexicographically.
pub open spec fn version_cmp(a: SemverVersion, b: SemverVersion) -> TagOrdering {
    ord_then(
        u64_cmp(a.major, b.major),
        ord_then(
            u64_cmp(a.minor, b.minor),
            ord_then(
                u64_cmp(a.patch, b.patch),
                ord_then(id_seq_cmp(a.pre@, b.pre@), id_seq_cmp(a.build@, b.build@)),
            ),
        ),
    )
}

fn compare_byte_seqs(a: &Vec<u8>, b: &Vec<u8>) -> (r: TagOrdering)
    ensures
        r == bytes_cmp(a@, b@),
{
    let mut i: usize = 0;
    proof {
        assert(a@.skip(0) =~= a@);
        assert(b@.skip(0) =~= b@);
    }
    loop
        invariant
            i <= a@.len(),
            i <= b@.len(),
            bytes_cmp(a@, b@) == bytes_cmp(a@.skip(i as int), b@.skip(i as int)),
        decreases a@.len() - i,
    {
        if i == a.len() && i == b.len() {
            return TagOrdering::Equal;
        }
        if i == a.len() {
            return TagOrdering::Less;
        }
        if i == b.len() {
            return TagOrdering::Greater;
        }
        proof {
            assert(a@.skip(i as int)[0] == a@[i as int]);
            assert(b@.skip(i as int)[0] == b@[i as int]);
        }
        if a[i] < b[i] {
            return TagOrdering::Less;
        }
        if a[i] > b[i] {
            return TagOrdering::Greater;
        }
        proof {
            assert(a@.skip(i as int).drop_first() =~= a@.skip(i as int + 1));
            assert(b@.skip(i as int).drop_first() =~= b@.skip(i as int + 1));
        }
        i = i + 1;
    }
}

fn compare_identifiers(a: &VersionIdentifier, b: &VersionIdentifier) -> (r: TagOrdering)
    ensures
        r == id_cmp(*a, *b),
{
    match (a, b) {
        (VersionIdentifier::Numeric(x), VersionIdentifier::Numeric(y)) => {
            if *x < *y {
                TagOrdering::Less
            } else if *x > *y {
                TagOrdering::Greater
            } else {
                TagOrdering::Equal
            }
        },
        (VersionIdentifier::Numeric(_), VersionIdentifier::AlphaNumeric(_)) => TagOrdering::Less,
        (VersionIdentifier::AlphaNumeric(_), VersionIdentifier::Numeric(_)) => TagOrdering::Greater,
        (VersionIdentifier::AlphaNumeric(x), VersionIdentifier::AlphaNumeric(y)) => {
            compare_byte_seqs(x, y)
        },
    }
}

fn compare_identifier_seqs(a: &Vec<VersionIdentifier>, b: &Vec<VersionIdentifier>) -> (r:
    TagOrdering)
    ensures
        r == id_seq_cmp(a@, b@),
{
    let mut i: usize = 0;
    proof {
        assert(a@.skip(0) =~= a@);
        assert(b@.skip(0) =~= b@);
    }
    loop
        invariant
            i <= a@.len(),
            i <= b@.len(),
            id_seq_cmp(a@, b@) == id_seq_cmp(a@.skip(i as int), b@.skip(i as int)),
        decreases a@.len() - i,
    {
        if i == a.len() && i == b.len() {
            return TagOrdering::Equal;
        }
        if i == a.len() {
            return TagOrdering::Less;
        }
        if i == b.len() {
            return TagOrdering::Greater;
        }
        proof {
            assert(a@.skip(i as int).first() == a@[i as int]);
            assert(b@.skip(i as int).first() == b@[i as int]);
        }
        let c = compare_identifiers(&a[i], &b[i]);
        match c {
            TagOrdering::Equal => {
                proof {
                    assert(a@.skip(i as int).drop_first() =~= a@.skip(i as int + 1));
                    assert(b@.skip(i as int).drop_first() =~= b@.skip(i as int + 1));
                }
                i = i + 1;
            },
            other => {
                return other;
            },
        }
    }
}

/// Compares two parsed versions in the version order.
pub fn compare_versions(a: &SemverVersion, b: &SemverVersion) -> (r: TagOrdering)
    ensures
        r == version_cmp(*a, *b),
{
    if a.major != b.major {
        return if a.major < b.major {
            TagOrdering::Less
        } else {
            TagOrdering::Greater
        };
    }
    if a.minor != b.minor {
        return if a.minor < b.minor {
            TagOrdering::Less
        } else {
            TagOrdering::Greater
        };
    }
    if a.patch != b.patch {
        return if a.patch < b.patch {
            TagOrdering::Less
        } else {
            TagOrdering::Greater
        };
    }
    let pre = compare_identifier_seqs(&a.pre, &b.pre);
    match pre {
        TagOrdering::Equal => compare_identifier_seqs(&a.build, &b.build),
        c => c,
    }
}

/// The mirror image of a comparison outcome.
pub open spec fn ord_flip(o: TagOrdering) -> TagOrdering {
    match o {
        TagOrdering::Less => TagOrdering::Greater,
        TagOrdering::Equal => TagOrdering::Equal,
        TagOrdering::Greater => TagOrdering::Less,
    }
}

proof fn lemma_bytes_cmp_flip(a: Seq<u8>, b: Seq<u8>)
    ensures
        bytes_cmp(b, a) == ord_flip(bytes_cmp(a, b)),
    decreases a.len(),
{
    if a.len() > 0 && b.len() > 0 && a[0] == b[0] {
        lemma_bytes_cmp_flip(a.drop_first(), b.drop_first());
    }
}

proof fn lemma_id_cmp_flip(a: VersionIdentifier, b: VersionIdentifier)
    ensures
        id_cmp(b, a) == ord_flip(id_cmp(a, b)),
{
    match (a, b) {
        (VersionIdentifier::AlphaNumeric(x), VersionIdentifier::AlphaNumeric(y)) => {
            lemma_bytes_cmp_flip(x@, y@);
        },
        _ => {},
    }
}

proof fn lemma_id_seq_cmp_flip(a: Seq<VersionIdentifier>, b: Seq<VersionIdentifier>)
    ensures
        id_seq_cmp(b, a) == ord_flip(id_seq_cmp(a, b)),
    decreases a.len(),
{
    if a.len() > 0 && b.len() > 0 {
        lemma_id_cmp_flip(a.first(), b.first());
        if id_cmp(a.first(), b.first()) == TagOrdering::Equal {
            lemma_id_seq_cmp_flip(a.drop_first(), b.drop_first());
        }
    }
}

/// Swapping the operands of the version comparison mirrors its outcome.
pub proof fn lemma_version_cmp_flip(a: SemverVersion, b: SemverVersion)
    ensures
        version_cmp(b, a) == ord_flip(version_cmp(a, b)),
{
    lemma_id_seq_cmp_flip(a.pre@, b.pre@);
    lemma_id_seq_cmp_flip(a.build@, b.build@);
}

proof fn lemma_bytes_cmp_trans(a: Seq<u8>, b: Seq<u8>, c: Seq<u8>)
    ensures
        bytes_cmp(a, b) == TagOrdering::Equal && bytes_cmp(b, c) == TagOrdering::Equal
            ==> bytes_cmp(a, c) == TagOrdering::Equal,
        bytes_cmp(a, b) == TagOrdering::Less && bytes_cmp(b, c) != TagOrdering::Greater
            ==> bytes_cmp(a, c) == TagOrdering::Less,
        bytes_cmp(a, b) != TagOrdering::Greater && bytes_cmp(b, c) == TagOrdering::Less
            ==> bytes_cmp(a, c) == TagOrdering::Less,
    decreases a.len() + b.len() + c.len(),
{
    if a.len() > 0 && b.len() > 0 && c.len() > 0 {
        lemma_bytes_cmp_trans(a.drop_first(), b.drop_first(), c.drop_first());
    }
}

proof fn lemma_id_cmp_trans(a: VersionIdentifier, b: VersionIdentifier, c: VersionIdentifier)
    ensures
        id_cmp(a, b) == TagOrdering::Equal && id_cmp(b, c) == TagOrdering::Equal ==> id_cmp(a, c)
            == TagOrdering::Equal,
        id_cmp(a, b) == TagOrdering::Less && id_cmp(b, c) != TagOrdering::Greater ==> id_cmp(a, c)
            == TagOrdering::Less,
        id_cmp(a, b) != TagOrdering::Greater && id_cmp(b, c) == TagOrdering::Less ==> id_cmp(a, c)
            == TagOrdering::Less,
{
    match (a, b, c) {
        (
            VersionIdentifier::AlphaNumeric(x),
            VersionIdentifier::AlphaNumeric(y),
            VersionIdentifier::AlphaNumeric(z),
        ) => {
            lemma_bytes_cmp_trans(x@, y@, z@);
        },
        _ => {},
    }
}

proof fn lemma_id_seq_cmp_trans(
    a: Seq<VersionIdentifier>,
    b: Seq<VersionIdentifier>,
    c: Seq<VersionIdentifier>,
)
    ensures
        id_seq_cmp(a, b) == TagOrdering::Equal && id_seq_cmp(b, c) == TagOrdering::Equal
            ==> id_seq_cmp(a, c) == TagOrdering::Equal,
        id_seq_cmp(a, b) == TagOrdering::Less && id_seq_cmp(b, c) != TagOrdering::Greater
            ==> id_seq_cmp(a, c) == TagOrdering::Less,
        id_seq_cmp(a, b) != TagOrdering::Greater && id_seq_cmp(b, c) == TagOrdering::Less
            ==> id_seq_cmp(a, c) == TagOrdering::Less,
    decreases a.len() + b.len() + c.len(),
{
    if a.len() > 0 && b.len() > 0 && c.len() > 0 {
        lemma_id_cmp_trans(a.first(), b.first(), c.first());
        lemma_id_seq_cmp_trans(a.drop_first(), b.drop_first(), c.drop_first());
    }
}

/// The version order is transitive, both in its strict and non-strict forms.
pub proof fn lemma_version_cmp_trans(a: SemverVersion, b: SemverVersion, c: SemverVersion)
    ensures
        version_cmp(a, b) == TagOrdering::Equal && version_cmp(b, c) == TagOrdering::Equal
            ==> version_cmp(a, c) == TagOrdering::Equal,
        version_cmp(a, b) == TagOrdering::Less && version_cmp(b, c) != TagOrdering::Greater
            ==> version_cmp(a, c) == TagOrdering::Less,
        version_cmp(a, b) != TagOrdering::Greater && version_cmp(b, c) == TagOrdering::Less
            ==> version_cmp(a, c) == TagOrdering::Less,
{
    lemma_id_seq_cmp_trans(a.pre@, b.pre@, c.pre@);
    lemma_id_seq_cmp_trans(a.build@, b.build@, c.build@);
}

} // verus!
