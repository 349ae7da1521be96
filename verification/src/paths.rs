//! Where viban stores its per-project data — outside the project folder, under
//! `<base>/projects/<key>`, where `key` is a stable hash of the workspace path.

use vstd::prelude::*;
use vstd::string::StringSliceAdditionalSpecFns;

use crate::text::{chars_of, push_chars, push_str, string_of};

verus! {

/// FNV-1a 64-bit offset basis.
pub const FNV_OFFSET: u64 = 0xcbf2_9ce4_8422_2325;

/// FNV-1a 64-bit prime.
pub const FNV_PRIME: u64 = 0x0000_0100_0000_01b3;

/// The 64-bit FNV-1a hash of `bytes`.
pub open spec fn fnv1a(bytes: Seq<u8>) -> u64
    decreases bytes.len(),
{
    if bytes.len() == 0 {
        FNV_OFFSET
    } else {
        vstd::wrapping::u64_specs::wrapping_mul(
            fnv1a(bytes.drop_last()) ^ (bytes.last() as u64),
            FNV_PRIME,
        )
    }
}

/// A lowercase hexadecimal digit.
pub open spec fn hex_char(d: int) -> char {
    if d < 10 {
        (48 + d) as char
    } else {
        (87 + d) as char
    }
}

/// The `n` lowest hexadecimal digits of `v`, most significant first.
pub open spec fn hex_digits(v: nat, n: nat) -> Seq<char>
    decreases n,
{
    if n == 0 {
        Seq::empty()
    } else {
        hex_digits(v / 16, (n - 1) as nat).push(hex_char((v % 16) as int))
    }
}

pub fn hex_digit(d: u8) -> (r: char)
    requires
        d < 16,
    ensures
        r == hex_char(d as int),
{
    if d < 10 {
        (48u8 + d) as char
    } else {
        (87u8 + d) as char
    }
}

/// `format!("{v:016x}")`: sixteen lowercase hex digits, zero-padded.
pub fn hex16(value: u64) -> (r: Vec<char>)
    ensures
        r@ == hex_digits(value as nat, 16),
{
    let mut out: Vec<char> = vec!['0'; 16];
    let mut v = value;
    let mut i: usize = 0;
    assert(out@.subrange(16, 16) =~= Seq::<char>::empty());
    while i < 16
        invariant
            i <= 16,
            out.len() == 16,
            hex_digits(value as nat, 16) == hex_digits(v as nat, (16 - i) as nat) + out@.subrange(
                16 - i,
                16,
            ),
        decreases 16 - i,
    {
        let d = (v % 16) as u8;
        let ghost tail = out@.subrange(16 - i as int, 16);
        out.set(15 - i, hex_digit(d));
        assert(out@.subrange(15 - i as int, 16) =~= seq![hex_char((v % 16) as int)] + tail);
        assert(hex_digits(v as nat, (16 - i) as nat) == hex_digits((v / 16) as nat, (15 - i) as nat).push(
            hex_char((v % 16) as int),
        ));
        assert(hex_digits((v / 16) as nat, (15 - i) as nat).push(hex_char((v % 16) as int)) + tail
            =~= hex_digits((v / 16) as nat, (15 - i) as nat) + (seq![hex_char((v % 16) as int)]
            + tail));
        v = v / 16;
        i += 1;
    }
    assert(hex_digits(v as nat, 0) =~= Seq::<char>::empty());
    assert(out@.subrange(0, 16) =~= out@);
    out
}

/// A stable, filesystem-safe key for a workspace path: the FNV-1a hash of its
/// UTF-8 bytes, as sixteen hex digits.
pub open spec fn project_key_of(workspace: &str) -> Seq<char> {
    hex_digits(fnv1a(workspace.spec_bytes()) as nat, 16)
}

/// A character of a lowercase hexadecimal numeral.
pub open spec fn is_hex_char(c: char) -> bool {
    ('0' <= c <= '9') || ('a' <= c <= 'f')
}

proof fn lemma_hex_digits_shape(v: nat, n: nat)
    ensures
        hex_digits(v, n).len() == n,
        forall|i: int| 0 <= i < n ==> is_hex_char(#[trigger] hex_digits(v, n)[i]),
    decreases n,
{
    if n > 0 {
        lemma_hex_digits_shape(v / 16, (n - 1) as nat);
        let d = (v % 16) as int;
        assert(is_hex_char(hex_char(d)));
    }
}

/// A project key is filesystem-safe: sixteen lowercase hexadecimal digits.
pub proof fn lemma_project_key_safe(workspace: &str)
    ensures
        project_key_of(workspace).len() == 16,
        forall|i: int| 0 <= i < 16 ==> is_hex_char(#[trigger] project_key_of(workspace)[i]),
{
    lemma_hex_digits_shape(fnv1a(workspace.spec_bytes()) as nat, 16);
}

/// The key of a (canonicalized) workspace path. FNV-1a keeps it identical
/// across runs and toolchain versions.
pub fn project_key(workspace: &str) -> (r: String)
    ensures
        r@ == project_key_of(workspace),
{
    let bytes = workspace.as_bytes();
    let mut hash: u64 = FNV_OFFSET;
    let mut i: usize = 0;
    while i < bytes.len()
        invariant
            i <= bytes.len(),
            bytes@ == workspace.spec_bytes(),
            hash == fnv1a(bytes@.subrange(0, i as int)),
        decreases bytes.len() - i,
    {
        assert(bytes@.subrange(0, i as int + 1).drop_last() =~= bytes@.subrange(0, i as int));
        hash = hash ^ (bytes[i] as u64);
        hash = hash.wrapping_mul(FNV_PRIME);
        i += 1;
    }
    assert(bytes@.subrange(0, bytes.len() as int) =~= bytes@);
    string_of(&hex16(hash))
}

/// `PathBuf::join` with a relative component: a `'/'` separates the two
/// unless the base is empty or already ends with one.
pub open spec fn join_rel(base: Seq<char>, component: Seq<char>) -> Seq<char> {
    if base.len() == 0 {
        component
    } else if base.last() == '/' {
        base + component
    } else {
        base.push('/') + component
    }
}

/// `join_rel` on strings.
pub fn join_path(base: &str, component: &str) -> (r: String)
    ensures
        r@ == join_rel(base@, component@),
{
    let b = chars_of(base);
    let mut out = string_of(&b);
    if b.len() > 0 && b[b.len() - 1] != '/' {
        crate::text::push_char(&mut out, '/');
    }
    push_str(&mut out, component);
    out
}

/// The OS local data directory (`dirs::data_local_dir`), as text. Nothing is
/// claimed of it: it depends on the platform and the environment.
#[verifier::external_body]
fn os_local_data_dir() -> (r: Option<String>) {
    dirs::data_local_dir().map(|dir| dir.to_string_lossy().into_owned())
}

/// The data directory of a workspace under `base`: `<base>/projects/<key>`.
pub open spec fn data_dir_under(base: Seq<char>, workspace: &str) -> Seq<char> {
    join_rel(join_rel(base, "projects"@), project_key_of(workspace))
}

/// The texts of a result of strings.
pub open spec fn result_text(r: Result<String, String>) -> Result<Seq<char>, Seq<char>> {
    match r {
        Ok(s) => Ok(s@),
        Err(e) => Err(e@),
    }
}

/// The text of an optional string.
pub open spec fn opt_text(s: Option<&str>) -> Option<Seq<char>> {
    match s {
        Some(t) => Some(t@),
        None => None,
    }
}

/// Where a workspace's data lives given the OS local data directory:
/// `<os>/viban/projects/<key>`, or an error when the OS has none.
pub open spec fn data_dir_from_of(os_dir: Option<Seq<char>>, workspace: &str) -> Result<Seq<char>, Seq<char>> {
    match os_dir {
        Some(os) => Ok(data_dir_under(join_rel(os, "viban"@), workspace)),
        None => Err("cannot resolve the OS data directory"@),
    }
}

/// The data directory for `workspace` under the OS local data directory
/// `os_dir`, as resolved by the caller.
pub fn data_dir_from(os_dir: Option<&str>, workspace: &str) -> (r: Result<String, String>)
    ensures
        result_text(r) == data_dir_from_of(opt_text(os_dir), workspace),
{
    match os_dir {
        Some(os) => Ok(data_dir_in(join_path(os, "viban").as_str(), workspace)),
        None => Err("cannot resolve the OS data directory".to_string()),
    }
}

/// `<base>/projects/<key of workspace>`.
fn data_dir_in(base: &str, workspace: &str) -> (r: String)
    ensures
        r@ == data_dir_under(base@, workspace),
{
    let projects = join_path(base, "projects");
    let key = project_key(workspace);
    join_path(projects.as_str(), key.as_str())
}

/// The data directory for `workspace` (its canonical path): under
/// `data_dir_override` when given, otherwise under `viban/` in the OS local
/// data directory — an error when the OS has none. Which directory the OS
/// reports is not claimed.
pub fn project_data_dir(data_dir_override: Option<&str>, workspace: &str) -> (r: Result<String, String>)
    ensures
        match data_dir_override {
            Some(base) => r matches Ok(dir) && dir@ == data_dir_under(base@, workspace),
            None => exists|os_dir: Option<Seq<char>>|
                result_text(r) == #[trigger] data_dir_from_of(os_dir, workspace),
        },
{
    match data_dir_override {
        Some(base) => Ok(data_dir_in(base, workspace)),
        None => {
            let os = os_local_data_dir();
            let r = match &os {
                Some(dir) => data_dir_from(Some(dir.as_str()), workspace),
                None => data_dir_from(None, workspace),
            };
            proof {
                let os_view: Option<Seq<char>> = match os {
                    Some(dir) => Some(dir@),
                    None => None,
                };
                assert(result_text(r) == data_dir_from_of(os_view, workspace));
            }
            r
        },
    }
}

} // verus!
