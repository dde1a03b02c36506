use vstd::prelude::*;
use vstd::string::StrSliceExecFns;
use vstd::string::StringExecFns;

use crate::error::ErrorKind;

verus! {

/// An image name together with its tag.
#[derive(Debug)]
pub struct ImageReference {
    pub name: String,
    pub tag: String,
}

/// `t` holds no `:`.
pub open spec fn colon_free(t: Seq<char>) -> bool {
    forall|i: int| 0 <= i < t.len() ==> t[i] != ':'
}

/// `t` holds at least two `:` separators.
pub open spec fn has_two_colons(t: Seq<char>) -> bool {
    exists|i: int, j: int| 0 <= i < j < t.len() && t[i] == ':' && t[j] == ':'
}

/// Where the `:` of a reference stands, if it has one.
pub open spec fn colon_at(t: Seq<char>) -> int {
    choose|k: int| 0 <= k < t.len() && t[k] == ':'
}

/// The name and tag that `name[:tag]` denotes: the tag is `latest` when no
/// `:` is present, and two or more `:` denote nothing.
pub open spec fn reference_of(t: Seq<char>) -> Option<(Seq<char>, Seq<char>)> {
    if has_two_colons(t) {
        None
    } else if colon_free(t) {
        Some((t, "latest"@))
    } else {
        Some((t.take(colon_at(t)), t.skip(colon_at(t) + 1)))
    }
}

/// Splits `name[:tag]` into its name and tag; the tag is `latest` when the
/// string holds no `:`, and a string with two or more `:` is refused.
pub fn parse_image(image: &str) -> (r: Result<ImageReference, ErrorKind>)
    ensures
        reference_of(image@) == match r {
            Ok(p) => Some((p.name@, p.tag@)),
            Err(_) => None::<(Seq<char>, Seq<char>)>,
        },
        colon_free(image@) ==> r is Ok && r->Ok_0.name@ == image@ && r->Ok_0.tag@
            == "latest"@,
        r is Ok <==> !has_two_colons(image@),
        r is Err ==> r->Err_0 == ErrorKind::InvalidReference,
        r is Ok && !colon_free(image@) ==> {
            let p = r->Ok_0;
            &&& p.name@ + seq![':'] + p.tag@ == image@
            &&& colon_free(p.name@)
            &&& colon_free(p.tag@)
        },
{
    let n = image.unicode_len();
    let mut first: usize = n;
    let mut i: usize = 0;
    while i < n
        invariant
            n == image@.len(),
            i <= n,
            first <= n,
            first == n ==> colon_free(image@.take(i as int)),
            first < n ==> first < i && image@[first as int] == ':' && colon_free(
                image@.take(first as int),
            ),
            first < n ==> forall|k: int| first < k < i ==> image@[k] != ':',
        decreases n - i,
    {
        let c = image.get_char(i);
        if c == ':' {
            if first < n {
                assert(0 <= first < i < image@.len());
                return Err(ErrorKind::InvalidReference);
            }
            assert(colon_free(image@.take(i as int)));
            first = i;
        }
        i = i + 1;
        assert(first == n ==> colon_free(image@.take(i as int))) by {
            if first == n {
                assert forall|k: int| 0 <= k < i implies image@.take(i as int)[k] != ':' by {
                    if k < i - 1 {
                        assert(image@.take(i as int)[k] == image@.take(i - 1)[k]);
                    }
                }
            }
        }
    }
    if first == n {
        assert(image@.take(n as int) =~= image@);
        assert(!has_two_colons(image@));
        return Ok(ImageReference { name: image.to_owned(), tag: String::from_str("latest") });
    }
    let name = image.substring_char(0, first);
    let tag = image.substring_char(first + 1, n);
    assert(name@ + seq![':'] + tag@ =~= image@);
    assert(name@ =~= image@.take(first as int));
    assert(!has_two_colons(image@));
    assert(colon_at(image@) == first) by {
        let k = colon_at(image@);
        assert(0 <= k < image@.len() && image@[k] == ':');
        if k < first {
            assert(image@.take(first as int)[k] == image@[k]);
        }
    }
    assert(tag@ =~= image@.skip(first + 1));
    Ok(ImageReference { name: name.to_owned(), tag: tag.to_owned() })
}

} // verus!
