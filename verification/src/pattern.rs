//! The naming convention of the cache: one liked-tweet page per file,
//! named `likes-<username>-<discriminator>`. Selection is a prefix match
//! that includes the trailing separator, so `likes-alice-1` belongs to
//! `alice` while `likes-alicexyz-1` does not.

use vstd::prelude::*;
use vstd::string::StrSliceExecFns;
use vstd::string::StringExecFns;
use crate::text::str_eq;

verus! {

/// The characters every matching filename opens with: `likes-`, the
/// username, then the separating `-`.
pub open spec fn likes_prefix(username: Seq<char>) -> Seq<char> {
    seq!['l', 'i', 'k', 'e', 's', '-'] + username + seq!['-']
}

/// Whether `filename` names a liked-tweet page for `username`: a prefix
/// match on `likes-<username>-`.
pub open spec fn matches_likes_pattern(filename: Seq<char>, username: Seq<char>) -> bool {
    let p = likes_prefix(username);
    filename.len() >= p.len() && filename.take(p.len() as int) == p
}

/// Tests one filename against the `likes-<username>-` convention.
pub fn is_likes_page_for(filename: &str, username: &str) -> (r: bool)
    ensures
        r == matches_likes_pattern(filename@, username@),
{
    let flen = filename.unicode_len();
    let ulen = username.unicode_len();
    proof {
        assert(likes_prefix(username@).len() == username@.len() + 7);
    }
    if flen < 7 || flen - 7 < ulen {
        return false;
    }
    let plen = ulen + 7;
    let head = filename.substring_char(0, plen);
    let mut pat = String::from_str("likes-");
    pat.append(username);
    pat.append("-");
    proof {
        reveal_strlit("likes-");
        reveal_strlit("-");
        assert("likes-"@ =~= seq!['l', 'i', 'k', 'e', 's', '-']);
        assert("-"@ =~= seq!['-']);
        assert(pat@ =~= likes_prefix(username@));
        assert(filename@.take(plen as int) =~= filename@.subrange(0, plen as int));
    }
    str_eq(head, pat.as_str())
}

/// The view of one directory entry: its filename's characters, or
/// nothing where no name could be read.
pub open spec fn names_view(s: Seq<Option<String>>) -> Seq<Option<Seq<char>>> {
    s.map_values(
        |e: Option<String>|
            match e {
                Some(x) => Some(x@),
                None => None,
            },
    )
}

/// The view of a run of owned strings.
pub open spec fn strings_view(s: Seq<String>) -> Seq<Seq<char>> {
    s.map_values(|x: String| x@)
}

/// The filenames a scan selects, in listing order: entries without a
/// readable name are skipped, as are names outside the convention.
pub open spec fn matching_of(entries: Seq<Option<Seq<char>>>, username: Seq<char>) -> Seq<Seq<char>>
    decreases entries.len(),
{
    if entries.len() == 0 {
        Seq::<Seq<char>>::empty()
    } else {
        matching_of(entries.drop_last(), username) + (match entries.last() {
            Some(name) => if matches_likes_pattern(name, username) {
                seq![name]
            } else {
                Seq::<Seq<char>>::empty()
            },
            None => Seq::<Seq<char>>::empty(),
        })
    }
}

/// Scans a directory listing and keeps exactly the page files of
/// `username`, in the order the listing gave them. An entry without a
/// readable filename is silently skipped, never an error.
pub fn matching_files(entries: &Vec<Option<String>>, username: &str) -> (r: Vec<String>)
    ensures
        strings_view(r@) == matching_of(names_view(entries@), username@),
{
    let mut r: Vec<String> = Vec::new();
    let n = entries.len();
    let mut i: usize = 0;
    proof {
        assert(strings_view(r@) =~= Seq::<Seq<char>>::empty());
        assert(names_view(entries@).take(0) =~= Seq::<Option<Seq<char>>>::empty());
    }
    while i < n
        invariant
            i <= n,
            n == entries.len(),
            strings_view(r@) == matching_of(names_view(entries@).take(i as int), username@),
        decreases n - i,
    {
        let ghost prefix = names_view(entries@).take(i as int);
        let ghost before = r@;
        match &entries[i] {
            Some(name) => {
                if is_likes_page_for(name.as_str(), username) {
                    r.push(name.clone());
                }
            },
            None => {},
        }
        i = i + 1;
        proof {
            let step = names_view(entries@).take(i as int);
            assert(step.drop_last() =~= prefix);
            assert(step.last() == names_view(entries@)[i - 1]);
            if r@ != before {
                assert(strings_view(r@) =~= strings_view(before).push(r@.last()@));
            }
            assert(strings_view(r@) =~= matching_of(step, username@));
        }
    }
    proof {
        assert(names_view(entries@).take(n as int) =~= names_view(entries@));
    }
    r
}

} // verus!
