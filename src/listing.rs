//! The paged listing of stored files, newest first, that the chat front end shows.
use vstd::prelude::*;
use crate::file_storage::{FileMetadata, FileMetadataView};
use crate::link_utils::{build_url_path, encode_path};
use crate::queue::min_nat;
use crate::parse::{contains, contains_exec};
use crate::text::{dec, push_all, push_decimal};

verus! {

/// Files shown on one page.
pub const PER_PAGE: usize = 10;

pub open spec fn by_upload_time(s: Seq<FileMetadata>) -> bool {
    forall|i: int, j: int| 0 <= i < j < s.len() ==> s[i].uploaded_at <= s[j].uploaded_at
}

/// Relies on `slice::sort_by_key` (std): a stable sort by the key, which keeps
/// the same elements and leaves them in ascending key order.
#[verifier::external_body]
fn sort_by_upload_time(files: &mut Vec<FileMetadata>)
    ensures
        final(files)@.to_multiset() == old(files)@.to_multiset(),
        by_upload_time(final(files)@),
{
    files.sort_by_key(|m| m.uploaded_at);
}

pub open spec fn max_nat(a: nat, b: nat) -> nat {
    if a < b {
        b
    } else {
        a
    }
}

pub open spec fn page_count(total: nat) -> nat {
    total / PER_PAGE as nat + if total % PER_PAGE as nat == 0 {
        0nat
    } else {
        1nat
    }
}

/// The requested page (the first by default), kept between the first and the last.
pub open spec fn chosen_page(requested: Option<usize>, total: nat) -> nat {
    let last = max_nat(page_count(total), 1);
    let want: nat = match requested {
        Some(p) => p as nat,
        None => 1,
    };
    min_nat(max_nat(want, 1), last)
}

pub open spec fn page_start(page: nat) -> nat {
    ((page - 1) * PER_PAGE as nat) as nat
}

pub open spec fn page_len(total: nat, page: nat) -> nat {
    if page_start(page) >= total {
        0
    } else {
        min_nat(PER_PAGE as nat, (total - page_start(page)) as nat)
    }
}

pub open spec fn file_line(m: FileMetadataView, domain: Seq<char>) -> Seq<char> {
    "- "@ + m.file_name + " ("@ + dec(m.file_size as nat) + " bytes)\n"@ + domain + encode_path(
        m.unique_id,
        m.file_name,
    )
}

/// The lines of the first `k` entries of the page, newest first: on a list in
/// ascending upload order the newest entry is the last.
pub open spec fn page_lines(s: Seq<FileMetadata>, page: nat, domain: Seq<char>, k: nat) -> Seq<
    char,
>
    decreases k,
{
    if k == 0 {
        Seq::empty()
    } else {
        page_lines(s, page, domain, (k - 1) as nat) + "\n"@ + file_line(
            s[s.len() - 1 - (page_start(page) + k - 1)]@,
            domain,
        )
    }
}

pub open spec fn list_text(s: Seq<FileMetadata>, requested: Option<usize>, domain: Seq<char>) -> Seq<
    char,
> {
    let total = s.len();
    let page = chosen_page(requested, total);
    "Page "@ + dec(page) + "/"@ + dec(max_nat(page_count(total), 1)) + " ("@ + dec(total)
        + " total)"@ + page_lines(s, page, domain, page_len(total, page)) + if page_count(total)
        > 1 {
        "\n\nTip: use /list <page>"@
    } else {
        Seq::empty()
    }
}

/// The listing page of `files`, taken in the given order as ascending upload time.
pub fn list_page_sorted(files: &Vec<FileMetadata>, requested: Option<usize>, domain: &str) -> (r:
    String)
    ensures
        r@ == list_text(files@, requested, domain@),
{
    let total = files.len();
    let pages: usize = total / PER_PAGE + if total % PER_PAGE == 0 {
        0
    } else {
        1
    };
    let last: usize = if pages < 1 {
        1
    } else {
        pages
    };
    let want: usize = match requested {
        Some(p) => p,
        None => 1,
    };
    let want1: usize = if want < 1 {
        1
    } else {
        want
    };
    let page: usize = if want1 < last {
        want1
    } else {
        last
    };
    assert(page == chosen_page(requested, total as nat));
    assert((page - 1) * 10 <= total) by (nonlinear_arith)
        requires
            1 <= page <= last,
            last == 1 || last == pages,
            pages == total / 10 + if total % 10 == 0 {
                0nat
            } else {
                1nat
            },
    ;
    let start: usize = (page - 1) * PER_PAGE;
    let count: usize = if start >= total {
        0
    } else if total - start < PER_PAGE {
        total - start
    } else {
        PER_PAGE
    };
    assert(count == page_len(total as nat, page as nat));
    let mut r = String::new();
    push_all(&mut r, "Page ");
    push_decimal(&mut r, page as u64);
    push_all(&mut r, "/");
    push_decimal(&mut r, last as u64);
    push_all(&mut r, " (");
    push_decimal(&mut r, total as u64);
    push_all(&mut r, " total)");
    let ghost head = r@;
    let mut k: usize = 0;
    while k < count
        invariant
            k <= count,
            count == page_len(total as nat, page as nat),
            total == files@.len(),
            start == page_start(page as nat),
            start + count <= total,
            r@ == head + page_lines(files@, page as nat, domain@, k as nat),
        decreases count - k,
    {
        let m = &files[total - 1 - (start + k)];
        push_all(&mut r, "\n");
        push_all(&mut r, "- ");
        push_all(&mut r, m.file_name.as_str());
        push_all(&mut r, " (");
        push_decimal(&mut r, m.file_size as u64);
        push_all(&mut r, " bytes)\n");
        push_all(&mut r, domain);
        let path = build_url_path(m.unique_id.as_str(), m.file_name.as_str());
        push_all(&mut r, path.as_str());
        assert(r@ =~= head + page_lines(files@, page as nat, domain@, (k + 1) as nat));
        k = k + 1;
    }
    if pages > 1 {
        push_all(&mut r, "\n\nTip: use /list <page>");
    }
    assert(r@ =~= list_text(files@, requested, domain@));
    r
}

/// The listing page of `files`, newest first; "No files found" when there are none.
pub fn list_page(files: Vec<FileMetadata>, requested: Option<usize>, domain: &str) -> (r: String)
    ensures
        files@.len() == 0 ==> r@ == "No files found"@,
        files@.len() > 0 ==> exists|s: Seq<FileMetadata>|
            s.to_multiset() == files@.to_multiset() && by_upload_time(s) && r@ == list_text(
                s,
                requested,
                domain@,
            ),
{
    if files.len() == 0 {
        return String::from_str("No files found");
    }
    let mut sorted = files;
    sort_by_upload_time(&mut sorted);
    let r = list_page_sorted(&sorted, requested, domain);
    assert(sorted@.to_multiset() == files@.to_multiset() && by_upload_time(sorted@) && r@
        == list_text(sorted@, requested, domain@));
    r
}

/// The lowercase form of a text, as `str::to_lowercase` gives it.
pub uninterp spec fn lower_of(s: Seq<char>) -> Seq<char>;

/// Relies on `str::to_lowercase`: the lowercase mapping of the text, which depends
/// on the text alone; an empty text stays empty.
#[verifier::external_body]
fn lowercase(s: &str) -> (r: String)
    ensures
        r@ == lower_of(s@),
        s@.len() == 0 ==> r@.len() == 0,
{
    s.to_lowercase()
}

/// Matches shown by a search.
pub const MAX_RESULTS: usize = 10;

pub open spec fn name_matches(m: FileMetadata, q: Seq<char>) -> bool {
    contains(lower_of(m.file_name@), q)
}

/// The records whose lowercase name holds `q`, the last of `s` first.
pub open spec fn newest_matches(s: Seq<FileMetadata>, q: Seq<char>) -> Seq<FileMetadata>
    decreases s.len(),
{
    if s.len() == 0 {
        Seq::empty()
    } else {
        newest_matches(s.drop_first(), q) + if name_matches(s[0], q) {
            seq![s[0]]
        } else {
            Seq::<FileMetadata>::empty()
        }
    }
}

/// One line per record, separated by line breaks.
pub open spec fn joined_lines(s: Seq<FileMetadata>, domain: Seq<char>) -> Seq<char>
    decreases s.len(),
{
    if s.len() == 0 {
        Seq::empty()
    } else if s.len() == 1 {
        file_line(s[0]@, domain)
    } else {
        joined_lines(s.drop_last(), domain) + "\n"@ + file_line(s.last()@, domain)
    }
}

pub open spec fn find_text(s: Seq<FileMetadata>, q: Seq<char>, domain: Seq<char>) -> Seq<char> {
    let found = newest_matches(s, q);
    let shown = found.take(min_nat(MAX_RESULTS as nat, found.len()) as int);
    if q.len() == 0 {
        "Usage: /find <query>"@
    } else if found.len() == 0 {
        "No matches found"@
    } else {
        joined_lines(shown, domain) + if shown.len() == MAX_RESULTS {
            "\n(showing first 10 results)"@
        } else {
            Seq::empty()
        }
    }
}

fn push_file_line(r: &mut String, m: &FileMetadata, domain: &str)
    ensures
        final(r)@ == old(r)@ + file_line(m@, domain@),
{
    push_all(r, "- ");
    push_all(r, m.file_name.as_str());
    push_all(r, " (");
    push_decimal(r, m.file_size as u64);
    push_all(r, " bytes)\n");
    push_all(r, domain);
    let path = build_url_path(m.unique_id.as_str(), m.file_name.as_str());
    push_all(r, path.as_str());
    assert(final(r)@ =~= old(r)@ + file_line(m@, domain@));
}

/// The search result over `files`, taken in the given order as ascending upload
/// time, for a query already in lowercase: newest matches first, at most ten.
pub fn find_page_sorted(files: &Vec<FileMetadata>, query_lower: &str, domain: &str) -> (r: String)
    ensures
        r@ == find_text(files@, query_lower@, domain@),
{
    if query_lower.unicode_len() == 0 {
        return String::from_str("Usage: /find <query>");
    }
    let n = files.len();
    let mut r = String::new();
    let mut count: usize = 0;
    let mut i: usize = n;
    let ghost mut found: Seq<FileMetadata> = Seq::empty();
    assert(files@.subrange(n as int, n as int) =~= Seq::<FileMetadata>::empty());
    while i > 0
        invariant
            i <= n,
            n == files@.len(),
            query_lower@.len() > 0,
            found == newest_matches(files@.subrange(i as int, n as int), query_lower@),
            count == min_nat(MAX_RESULTS as nat, found.len()),
            r@ == joined_lines(found.take(count as int), domain@),
        decreases i,
    {
        let m = &files[i - 1];
        let lowered = lowercase(m.file_name.as_str());
        let hit = contains_exec(lowered.as_str(), query_lower);
        proof {
            let sub = files@.subrange(i - 1, n as int);
            assert(sub.drop_first() =~= files@.subrange(i as int, n as int));
            assert(sub[0] == files@[i - 1]);
        }
        let ghost next = if hit {
            found.push(files@[i - 1])
        } else {
            found
        };
        assert(next =~= newest_matches(files@.subrange(i - 1, n as int), query_lower@));
        if hit && count < MAX_RESULTS {
            let ghost before = found.take(count as int);
            if count > 0 {
                push_all(&mut r, "\n");
            }
            push_file_line(&mut r, m, domain);
            proof {
                let after = next.take((count + 1) as int);
                assert(after.drop_last() =~= before);
                assert(after.last() == files@[i - 1]);
                if count == 0 {
                    assert(after =~= seq![files@[i - 1]]);
                }
            }
            count = count + 1;
        } else {
            proof {
                if hit {
                    assert(next.take(count as int) =~= found.take(count as int));
                }
            }
        }
        proof {
            found = next;
        }
        i = i - 1;
    }
    assert(files@.subrange(0, n as int) =~= files@);
    if count == 0 {
        return String::from_str("No matches found");
    }
    if count == MAX_RESULTS {
        push_all(&mut r, "\n(showing first 10 results)");
    }
    r
}

/// The search result for `query` over `files`, ignoring case: newest matches
/// first, at most ten.
pub fn find_page(files: Vec<FileMetadata>, query: &str, domain: &str) -> (r: String)
    ensures
        lower_of(query@).len() == 0 ==> r@ == "Usage: /find <query>"@,
        lower_of(query@).len() > 0 ==> exists|s: Seq<FileMetadata>|
            s.to_multiset() == files@.to_multiset() && by_upload_time(s) && r@ == find_text(
                s,
                lower_of(query@),
                domain@,
            ),
{
    let q = lowercase(query);
    if q.as_str().unicode_len() == 0 {
        return String::from_str("Usage: /find <query>");
    }
    let mut sorted = files;
    sort_by_upload_time(&mut sorted);
    let r = find_page_sorted(&sorted, q.as_str(), domain);
    assert(sorted@.to_multiset() == files@.to_multiset() && by_upload_time(sorted@) && r@
        == find_text(sorted@, lower_of(query@), domain@));
    r
}

} // verus!
