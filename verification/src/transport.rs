//! The computed parts of the transports: the command line that starts a
//! remote server over SSH, and how object-store keys are formed from paths
//! under a bucket prefix and back. Spawning processes and talking to the
//! object store are left to the caller.

use vstd::prelude::*;

verus! {

// =============================================================================
// Decimal numbers
// =============================================================================

/// The digit character for `d < 10`.
pub open spec fn digit_char(d: nat) -> char {
    (48 + d) as char
}

/// The decimal digits of `n`, most significant first, without leading zeros.
pub open spec fn decimal(n: nat) -> Seq<char>
    decreases n,
{
    if n < 10 {
        seq![digit_char(n)]
    } else {
        decimal(n / 10).push(digit_char(n % 10))
    }
}

/// The one-character string of the digit `d`.
fn digit_str(d: u16) -> (r: &'static str)
    requires
        d < 10,
    ensures
        r@ == seq![digit_char(d as nat)],
{
    let r = match d {
        0 => {
            proof {
                reveal_strlit("0");
            }
            "0"
        },
        1 => {
            proof {
                reveal_strlit("1");
            }
            "1"
        },
        2 => {
            proof {
                reveal_strlit("2");
            }
            "2"
        },
        3 => {
            proof {
                reveal_strlit("3");
            }
            "3"
        },
        4 => {
            proof {
                reveal_strlit("4");
            }
            "4"
        },
        5 => {
            proof {
                reveal_strlit("5");
            }
            "5"
        },
        6 => {
            proof {
                reveal_strlit("6");
            }
            "6"
        },
        7 => {
            proof {
                reveal_strlit("7");
            }
            "7"
        },
        8 => {
            proof {
                reveal_strlit("8");
            }
            "8"
        },
        _ => {
            proof {
                reveal_strlit("9");
            }
            "9"
        },
    };
    assert(r@ =~= seq![digit_char(d as nat)]);
    r
}

/// The decimal digits of `n` (as `<u16 as ToString>::to_string` writes it).
fn u16_to_decimal(n: u16) -> (r: String)
    ensures
        r@ == decimal(n as nat),
    decreases n,
{
    if n < 10 {
        String::from_str(digit_str(n))
    } else {
        let mut s = u16_to_decimal(n / 10);
        s.append(digit_str(n % 10));
        assert(s@ =~= decimal((n / 10) as nat).push(digit_char((n % 10) as nat)));
        s
    }
}

// =============================================================================
// SSH command line
// =============================================================================

/// `-i <key>` for each identity file, in order.
pub open spec fn identity_args(keys: Seq<Seq<char>>) -> Seq<Seq<char>>
    decreases keys.len(),
{
    if keys.len() == 0 {
        Seq::empty()
    } else {
        identity_args(keys.drop_last()) + seq!["-i"@, keys.last()]
    }
}

/// The arguments given to `ssh` to start the remote server, before the remote
/// path: the host, `-l <user>` when a user is set, `-p <port>` when the port
/// is not 22, `-i <key>` per identity file, then `sy --server`.
pub open spec fn spec_ssh_args(
    hostname: Seq<char>,
    user: Seq<char>,
    port: u16,
    keys: Seq<Seq<char>>,
) -> Seq<Seq<char>> {
    seq![hostname] + (if user.len() > 0 {
        seq!["-l"@, user]
    } else {
        Seq::empty()
    }) + (if port != 22 {
        seq!["-p"@, decimal(port as nat)]
    } else {
        Seq::empty()
    }) + identity_args(keys) + seq!["sy"@, "--server"@]
}

/// The SSH arguments start with the host; a set user follows it at once as
/// `-l <user>`, whatever the port; a port other than 22 comes next as
/// `-p <port>`; and the arguments end with `sy --server`.
pub proof fn lemma_ssh_args_layout(hostname: Seq<char>, user: Seq<char>, port: u16, keys: Seq<Seq<char>>)
    ensures
        ({
            let a = spec_ssh_args(hostname, user, port, keys);
            let p = if user.len() > 0 { 3int } else { 1int };
            &&& a.len() >= 3
            &&& a[0] == hostname
            &&& user.len() > 0 ==> a[1] == "-l"@ && a[2] == user
            &&& port != 22 ==> a[p] == "-p"@ && a[p + 1] == decimal(port as nat)
            &&& a[a.len() - 2] == "sy"@
            &&& a[a.len() - 1] == "--server"@
        }),
{
    let u: Seq<Seq<char>> = if user.len() > 0 { seq!["-l"@, user] } else { Seq::empty() };
    let q: Seq<Seq<char>> = if port != 22 { seq!["-p"@, decimal(port as nat)] } else { Seq::empty() };
    let a = spec_ssh_args(hostname, user, port, keys);
    let head = seq![hostname] + u + q;
    assert(a == head + identity_args(keys) + seq!["sy"@, "--server"@]);
    assert(a == head + (identity_args(keys) + seq!["sy"@, "--server"@]));
    assert(a[0] == head[0]);
    if user.len() > 0 {
        assert(a[1] == head[1]);
        assert(a[2] == head[2]);
    }
    if port != 22 {
        let p = if user.len() > 0 { 3int } else { 1int };
        assert(a[p] == head[p]);
        assert(a[p + 1] == head[p + 1]);
    }
}

pub open spec fn strings_view(v: Seq<String>) -> Seq<Seq<char>> {
    v.map_values(|s: String| s@)
}

/// The arguments of the `ssh` command that starts `sy --server` on the
/// remote host; the remote path follows them.
pub fn ssh_command_args(hostname: &str, user: &str, port: u16, identity_files: &[String]) -> (r: Vec<
    String,
>)
    ensures
        strings_view(r@) == spec_ssh_args(hostname@, user@, port, strings_view(identity_files@)),
{
    let mut args: Vec<String> = Vec::new();
    args.push(hostname.to_owned());
    if user.unicode_len() > 0 {
        args.push(String::from_str("-l"));
        args.push(user.to_owned());
    }
    if port != 22 {
        args.push(String::from_str("-p"));
        args.push(u16_to_decimal(port));
    }
    let ghost head = strings_view(args@);
    assert(head == seq![hostname@] + (if user@.len() > 0 {
        seq!["-l"@, user@]
    } else {
        Seq::empty()
    }) + (if port != 22 {
        seq!["-p"@, decimal(port as nat)]
    } else {
        Seq::empty()
    }));
    let keys = Ghost(strings_view(identity_files@));
    let mut i: usize = 0;
    while i < identity_files.len()
        invariant
            i <= identity_files@.len(),
            keys@ == strings_view(identity_files@),
            strings_view(args@) == head + identity_args(keys@.subrange(0, i as int)),
        decreases identity_files@.len() - i,
    {
        args.push(String::from_str("-i"));
        args.push(identity_files[i].clone());
        proof {
            let pre = keys@.subrange(0, i as int);
            let next = keys@.subrange(0, i + 1);
            assert(next.drop_last() =~= pre);
            assert(next.last() == identity_files@[i as int]@);
            assert(strings_view(args@) =~= head + identity_args(pre) + seq!["-i"@, identity_files@[i as int]@]);
        }
        i = i + 1;
    }
    args.push(String::from_str("sy"));
    args.push(String::from_str("--server"));
    proof {
        assert(keys@.subrange(0, identity_files@.len() as int) =~= keys@);
        assert(strings_view(args@) =~= head + identity_args(keys@) + seq!["sy"@, "--server"@]);
    }
    args
}

// =============================================================================
// Object-store keys
// =============================================================================

/// `s` without its leading `c` characters (`str::trim_start_matches(c)`).
pub open spec fn trim_leading(s: Seq<char>, c: char) -> Seq<char>
    decreases s.len(),
{
    if s.len() > 0 && s[0] == c {
        trim_leading(s.subrange(1, s.len() as int), c)
    } else {
        s
    }
}

/// `s` without its trailing `c` characters (`str::trim_end_matches(c)`).
pub open spec fn trim_trailing(s: Seq<char>, c: char) -> Seq<char>
    decreases s.len(),
{
    if s.len() > 0 && s.last() == c {
        trim_trailing(s.drop_last(), c)
    } else {
        s
    }
}

/// The object key of a path under `prefix`: the path without leading
/// slashes, after the prefix without trailing slashes and one slash.
pub open spec fn spec_object_key(prefix: Seq<char>, path: Seq<char>) -> Seq<char> {
    if prefix.len() == 0 {
        trim_leading(path, '/')
    } else {
        trim_trailing(prefix, '/') + seq!['/'] + trim_leading(path, '/')
    }
}

/// The relative path of an object key under `prefix`: the key without the
/// prefix (when it starts with it) and without leading slashes. With no
/// prefix, the key as it is.
pub open spec fn spec_relative_key(prefix: Seq<char>, key: Seq<char>) -> Seq<char> {
    if prefix.len() == 0 {
        key
    } else if prefix.len() <= key.len() && key.subrange(0, prefix.len() as int) == prefix {
        trim_leading(key.subrange(prefix.len() as int, key.len() as int), '/')
    } else {
        trim_leading(key, '/')
    }
}

/// The text of the key that `object_store::path::Path::from(key)` makes of
/// `key`: its segments between slashes, empty ones dropped, each encoded as
/// the crate requires, joined by slashes.
pub uninterp spec fn object_store_key(key: Seq<char>) -> Seq<char>;

/// `object_store::path::Path::from(String)`, taken as its text (`as_ref`).
#[verifier::external_body]
fn object_path_text(key: String) -> (r: String)
    ensures
        r@ == object_store_key(key@),
{
    object_store::path::Path::from(key).as_ref().to_string()
}

/// The key the object store holds a local path under: the object key of
/// the path, as the store's path type makes it.
pub fn stored_key(prefix: &str, path: &str) -> (r: String)
    ensures
        r@ == object_store_key(spec_object_key(prefix@, path@)),
{
    object_path_text(object_key(prefix, path))
}

/// The key of the directory marker stored for a local path: the stored
/// key with a slash added when it has none, made a store path again.
pub fn stored_dir_marker_key(prefix: &str, path: &str) -> (r: String)
    ensures
        r@ == object_store_key(spec_dir_marker(object_store_key(spec_object_key(prefix@, path@)))),
{
    object_path_text(dir_marker_key(stored_key(prefix, path)))
}

/// The prefix a listing is restricted to: none without a prefix, else the
/// prefix as a store path.
pub fn list_prefix(prefix: &str) -> (r: Option<String>)
    ensures
        prefix@.len() == 0 ==> r is None,
        prefix@.len() > 0 ==> (r matches Some(k) && k@ == object_store_key(prefix@)),
{
    if prefix.unicode_len() == 0 {
        None
    } else {
        Some(object_path_text(prefix.to_owned()))
    }
}

/// Files from this size on are uploaded in parts (5MB).
pub const MULTIPART_THRESHOLD: u64 = 5 * 1024 * 1024;

/// Whether a file of `size` bytes is uploaded in parts rather than with one
/// simple put.
pub fn uses_multipart(size: u64) -> (r: bool)
    ensures
        r == (size >= MULTIPART_THRESHOLD),
{
    size >= MULTIPART_THRESHOLD
}

/// The key of a directory marker: the key, ending in a slash.
pub open spec fn spec_dir_marker(key: Seq<char>) -> Seq<char> {
    if key.len() > 0 && key.last() == '/' {
        key
    } else {
        key.push('/')
    }
}

proof fn lemma_trim_leading_from(s: Seq<char>, c: char, i: int)
    requires
        0 <= i <= s.len(),
        forall|j: int| 0 <= j < i ==> s[j] == c,
    ensures
        trim_leading(s, c) == trim_leading(s.subrange(i, s.len() as int), c),
    decreases i,
{
    if i > 0 {
        let t = s.subrange(1, s.len() as int);
        assert forall|j: int| 0 <= j < i - 1 implies t[j] == c by {
            assert(t[j] == s[j + 1]);
        }
        lemma_trim_leading_from(t, c, i - 1);
        assert(t.subrange(i - 1, t.len() as int) =~= s.subrange(i, s.len() as int));
    } else {
        assert(s.subrange(0, s.len() as int) =~= s);
    }
}

proof fn lemma_trim_trailing_to(s: Seq<char>, c: char, i: int)
    requires
        0 <= i <= s.len(),
        forall|j: int| i <= j < s.len() ==> s[j] == c,
    ensures
        trim_trailing(s, c) == trim_trailing(s.subrange(0, i), c),
    decreases s.len() - i,
{
    if i < s.len() {
        let t = s.drop_last();
        lemma_trim_trailing_to(t, c, i);
        assert(t.subrange(0, i) =~= s.subrange(0, i));
    } else {
        assert(s.subrange(0, i) =~= s);
    }
}

/// `s.trim_start_matches(c)`.
fn trim_start_char(s: &str, c: char) -> (r: String)
    ensures
        r@ == trim_leading(s@, c),
{
    let n = s.unicode_len();
    let mut i: usize = 0;
    while i < n && s.get_char(i) == c
        invariant
            n == s@.len(),
            i <= n,
            forall|j: int| 0 <= j < i ==> s@[j] == c,
        decreases n - i,
    {
        i = i + 1;
    }
    proof {
        lemma_trim_leading_from(s@, c, i as int);
        let t = s@.subrange(i as int, n as int);
        assert(t.len() > 0 ==> t[0] != c);
    }
    s.substring_char(i, n).to_owned()
}

/// `s.trim_end_matches(c)`.
fn trim_end_char(s: &str, c: char) -> (r: String)
    ensures
        r@ == trim_trailing(s@, c),
{
    let n = s.unicode_len();
    let mut i: usize = n;
    while i > 0 && s.get_char(i - 1) == c
        invariant
            n == s@.len(),
            i <= n,
            forall|j: int| i <= j < n ==> s@[j] == c,
        decreases i,
    {
        i = i - 1;
    }
    proof {
        lemma_trim_trailing_to(s@, c, i as int);
        let t = s@.subrange(0, i as int);
        assert(t.len() > 0 ==> t.last() != c);
    }
    s.substring_char(0, i).to_owned()
}

/// Whether `s` starts with `p`.
fn starts_with_str(s: &str, p: &str) -> (r: bool)
    ensures
        r == (p@.len() <= s@.len() && s@.subrange(0, p@.len() as int) == p@),
{
    let n = s.unicode_len();
    let m = p.unicode_len();
    if m > n {
        return false;
    }
    let mut i: usize = 0;
    while i < m
        invariant
            n == s@.len(),
            m == p@.len(),
            m <= n,
            i <= m,
            forall|j: int| 0 <= j < i ==> s@[j] == p@[j],
        decreases m - i,
    {
        if s.get_char(i) != p.get_char(i) {
            assert(s@.subrange(0, m as int)[i as int] != p@[i as int]);
            return false;
        }
        i = i + 1;
    }
    assert(s@.subrange(0, m as int) =~= p@);
    true
}

/// Convert a local path to an object store key under `prefix`.
pub fn object_key(prefix: &str, path: &str) -> (r: String)
    ensures
        r@ == spec_object_key(prefix@, path@),
{
    let rel = trim_start_char(path, '/');
    if prefix.unicode_len() == 0 {
        rel
    } else {
        let mut key = trim_end_char(prefix, '/');
        key.append("/");
        key.append(rel.as_str());
        proof {
            reveal_strlit("/");
        }
        key
    }
}

/// Convert an object store key under `prefix` back to a relative path.
pub fn relative_key(prefix: &str, key: &str) -> (r: String)
    ensures
        r@ == spec_relative_key(prefix@, key@),
{
    if prefix.unicode_len() == 0 {
        return key.to_owned();
    }
    if starts_with_str(key, prefix) {
        let n = key.unicode_len();
        let m = prefix.unicode_len();
        let rest = key.substring_char(m, n);
        trim_start_char(rest, '/')
    } else {
        trim_start_char(key, '/')
    }
}

/// The key of the directory marker object for `key`.
pub fn dir_marker_key(key: String) -> (r: String)
    ensures
        r@ == spec_dir_marker(key@),
{
    let n = key.as_str().unicode_len();
    if n > 0 && key.as_str().get_char(n - 1) == '/' {
        key
    } else {
        let mut k = key;
        k.append("/");
        proof {
            reveal_strlit("/");
        }
        k
    }
}

} // verus!
