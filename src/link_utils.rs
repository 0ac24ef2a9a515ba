//! The public path format `<id>_<name>` that links carry.
use vstd::prelude::*;
use crate::text::{push_all, push_range, push_replacing, replace_char};

verus! {

/// Length of every generated identifier.
pub const ID_LEN: usize = 8;

/// Separator between the identifier and the display name.
pub const SEP: char = '_';

/// The display name made safe for a URL: spaces become the separator.
pub open spec fn sanitize(name: Seq<char>) -> Seq<char> {
    replace_char(name, ' ', SEP)
}

pub open spec fn encode_path(id: Seq<char>, name: Seq<char>) -> Seq<char> {
    id + seq![SEP] + sanitize(name)
}

/// `i` is the position of the first separator of `p`, or `p.len()` when there is none.
pub open spec fn is_first_sep(p: Seq<char>, i: int) -> bool {
    &&& 0 <= i <= p.len()
    &&& i < p.len() ==> p[i] == SEP
    &&& forall|j: int| 0 <= j < i ==> p[j] != SEP
}

pub open spec fn first_sep(p: Seq<char>) -> int {
    choose|i: int| is_first_sep(p, i)
}

/// The identifier that a path names: the fixed-width prefix when the separator
/// follows it, else everything before the first separator, else the whole path.
pub open spec fn decode_path(p: Seq<char>) -> Seq<char> {
    if p.len() > ID_LEN && p[ID_LEN as int] == SEP {
        p.subrange(0, ID_LEN as int)
    } else {
        p.subrange(0, first_sep(p))
    }
}

pub proof fn lemma_first_sep_unique(p: Seq<char>, a: int, b: int)
    requires
        is_first_sep(p, a),
        is_first_sep(p, b),
    ensures
        a == b,
{
    if a < b {
        assert(p[a] != SEP);
    } else if b < a {
        assert(p[b] != SEP);
    }
}

/// Builds the path `<unique_id>_<file_name>`, with the spaces of the name replaced.
pub fn build_url_path(unique_id: &str, file_name: &str) -> (r: String)
    ensures
        r@ == encode_path(unique_id@, file_name@),
{
    let mut r = String::new();
    push_all(&mut r, unique_id);
    r.push(SEP);
    push_replacing(&mut r, file_name, ' ', SEP);
    assert(r@ =~= encode_path(unique_id@, file_name@));
    r
}

/// Reads the identifier back out of a path built by `build_url_path`, or out of
/// an older path whose identifier had another length.
pub fn extract_id_from_path(path: &str) -> (r: &str)
    ensures
        r@ == decode_path(path@),
{
    let n = path.unicode_len();
    if n > ID_LEN && path.get_char(ID_LEN) == SEP {
        return path.substring_char(0, ID_LEN);
    }
    let mut i: usize = 0;
    while i < n && path.get_char(i) != SEP
        invariant
            n == path@.len(),
            i <= n,
            forall|j: int| 0 <= j < i ==> path@[j] != SEP,
        decreases n - i,
    {
        i = i + 1;
    }
    proof {
        assert(is_first_sep(path@, i as int));
        lemma_first_sep_unique(path@, i as int, first_sep(path@));
    }
    path.substring_char(0, i)
}

/// A path built from an identifier of the generated length reads back as
/// exactly that identifier, whatever the display name holds, separators included.
pub proof fn lemma_decode_encode(id: Seq<char>, name: Seq<char>)
    requires
        id.len() == ID_LEN,
    ensures
        decode_path(encode_path(id, name)) == id,
{
    let p = encode_path(id, name);
    assert(p[ID_LEN as int] == SEP);
    assert(p.subrange(0, ID_LEN as int) =~= id);
}

} // verus!
