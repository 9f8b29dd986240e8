//! Pure string rules of the gateway: deriving a file extension from an
//! uploaded object's name hint, composing the stored object's name, and
//! composing the public and deletion links.

use vstd::prelude::*;

verus! {

/// The characters after the last `'.'` of `name`, the whole of `name` when
/// it holds no `'.'`, and empty when `name` ends in `'.'`.
pub open spec fn extension_of(name: Seq<char>) -> Seq<char>
    decreases name.len(),
{
    if name.len() == 0 {
        Seq::empty()
    } else if name.last() == '.' {
        Seq::empty()
    } else {
        extension_of(name.drop_last()).push(name.last())
    }
}

/// When `i` is the position of the last `'.'` of `s`, the extension is
/// exactly what follows it.
proof fn lemma_extension_after_dot(s: Seq<char>, i: int)
    requires
        0 <= i < s.len(),
        s[i] == '.',
        forall|j: int| i < j < s.len() ==> s[j] != '.',
    ensures
        extension_of(s) == s.subrange(i + 1, s.len() as int),
    decreases s.len(),
{
    if i == s.len() - 1 {
        assert(extension_of(s) =~= s.subrange(i + 1, s.len() as int));
    } else {
        lemma_extension_after_dot(s.drop_last(), i);
        assert(extension_of(s) =~= s.subrange(i + 1, s.len() as int));
    }
}

/// A name without any `'.'` is its own extension.
proof fn lemma_extension_no_dot(s: Seq<char>)
    requires
        forall|j: int| 0 <= j < s.len() ==> s[j] != '.',
    ensures
        extension_of(s) == s,
    decreases s.len(),
{
    if s.len() > 0 {
        lemma_extension_no_dot(s.drop_last());
        assert(extension_of(s) =~= s);
    }
}

/// The extension of `filename`: the part after its last `'.'`, the whole
/// name when it holds none, empty when it ends in `'.'`.
pub fn get_file_extension(filename: &str) -> (r: String)
    ensures
        r@ == extension_of(filename@),
{
    let n: usize = filename.unicode_len();
    let mut i: usize = n;
    while i > 0
        invariant
            i <= n,
            n == filename@.len(),
            forall|j: int| i <= j < n ==> filename@[j] != '.',
        decreases i,
    {
        if filename.get_char(i - 1) == '.' {
            let ext = filename.substring_char(i, n);
            proof {
                lemma_extension_after_dot(filename@, i - 1);
            }
            return ext.to_owned();
        }
        i = i - 1;
    }
    proof {
        lemma_extension_no_dot(filename@);
    }
    filename.to_owned()
}

/// The name an uploaded object is stored under: the random identifier,
/// followed by the original name's extension when there is one.
pub open spec fn object_name_of(rand_id: Seq<char>, original: Seq<char>) -> Seq<char> {
    if extension_of(original).len() > 0 {
        rand_id + "."@ + extension_of(original)
    } else {
        rand_id
    }
}

/// Compose the stored object name from a freshly drawn random identifier
/// and the inbound name hint, which contributes only its extension.
pub fn make_object_name(rand_id: &str, original: &str) -> (r: String)
    ensures
        r@ == object_name_of(rand_id@, original@),
{
    let ext = get_file_extension(original);
    if ext.as_str().unicode_len() > 0 {
        let mut out = rand_id.to_owned();
        out.append(".");
        out.append(ext.as_str());
        out
    } else {
        rand_id.to_owned()
    }
}

/// The public link of a stored object: the base URL, a `'/'`, the object's
/// name.
pub open spec fn object_url_of(base: Seq<char>, name: Seq<char>) -> Seq<char> {
    base + "/"@ + name
}

/// Compose the public link of a stored object.
pub fn make_object_url(base: &str, name: &str) -> (r: String)
    ensures
        r@ == object_url_of(base@, name@),
{
    let mut out = base.to_owned();
    out.append("/");
    out.append(name);
    out
}

/// The deletion link of a stored object: the API base URL, the deletion
/// path, and the capability token as its query parameter.
pub open spec fn deletion_url_of(api_base: Seq<char>, token: Seq<char>) -> Seq<char> {
    api_base + "/delete?token_str="@ + token
}

/// Compose the deletion link carrying a freshly minted capability token.
pub fn make_deletion_url(api_base: &str, token: &str) -> (r: String)
    ensures
        r@ == deletion_url_of(api_base@, token@),
{
    let mut out = api_base.to_owned();
    out.append("/delete?token_str=");
    out.append(token);
    out
}

} // verus!
