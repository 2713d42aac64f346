//! The library: `addFormat`, by which a running document registers the
//! repositories it wants to import from.

use crate::error::GitHubError;
use crate::format::default_headers;
use crate::format::FormatView;
use crate::format::GitHubFormat;
use crate::headers::as_map;
use crate::headers::distinct_keys;
use crate::headers::has_key;
use crate::headers::is_last_of_name;
use crate::headers::lemma_put_all_concat;
use crate::headers::lemma_put_all_distinct;
use crate::headers::lemma_put_all_last_wins;
use crate::headers::lemma_put_all_push;
use crate::headers::put_all;
use crate::value::Shape;
use crate::value::Value;
use vstd::prelude::*;

verus! {

/// The header a list item stands for: a tuple of two parts gives the texts of
/// the two; anything else gives none.
pub open spec fn header_in(item: Value) -> Option<(Seq<char>, Seq<char>)> {
    match item.shape {
        Shape::Tuple(parts) => if parts@.len() == 2 {
            Some((parts@[0].text@, parts@[1].text@))
        } else {
            None
        },
        _ => None,
    }
}

/// `header_in` as a function value.
pub open spec fn header_reader() -> spec_fn(Value) -> Option<(Seq<char>, Seq<char>)> {
    |item: Value| header_in(item)
}

/// The headers an optional argument supplies: those of the items of an array,
/// in order; none for any other shape.
pub open spec fn headers_in(arg: Value) -> Seq<(Seq<char>, Seq<char>)> {
    match arg.shape {
        Shape::Array(items) => items@.filter_map(header_reader()),
        _ => Seq::empty(),
    }
}

/// The repository ID an optional argument supplies: the text of a string;
/// none for any other shape.
pub open spec fn id_in(arg: Value) -> Option<Seq<char>> {
    match arg.shape {
        Shape::Str => Some(arg.text@),
        _ => None,
    }
}

/// A format after one optional argument was read: a string replaces the
/// repository ID, an array adds its headers, any other shape changes nothing.
pub open spec fn applied(format: FormatView, arg: Value) -> FormatView {
    FormatView {
        repo_id: match id_in(arg) {
            Some(id) => id,
            None => format.repo_id,
        },
        owner: format.owner,
        repo: format.repo,
        headers: put_all(format.headers, headers_in(arg)),
    }
}

/// The format that `addFormat` registers for at least two arguments: owner
/// and repository from the first two, then the third and the fourth read in
/// turn, where they are there. Further arguments play no part.
pub open spec fn registration(params: Seq<Value>) -> FormatView {
    let base = FormatView::initial(params[1].text@, params[0].text@);
    let third = if params.len() > 2 {
        applied(base, params[2])
    } else {
        base
    };
    if params.len() > 3 {
        applied(third, params[3])
    } else {
        third
    }
}

/// The headers that the third and the fourth argument supply, in order.
pub open spec fn supplied_headers(params: Seq<Value>) -> Seq<(Seq<char>, Seq<char>)> {
    let third = if params.len() > 2 {
        headers_in(params[2])
    } else {
        Seq::empty()
    };
    let fourth = if params.len() > 3 {
        headers_in(params[3])
    } else {
        Seq::empty()
    };
    third + fourth
}

/// With owner and repository alone, the registered format answers to
/// `github:` followed by the name of the repository, and carries the default
/// headers.
pub proof fn lemma_identifier_defaults_to_repo(params: Seq<Value>)
    requires
        params.len() == 2,
    ensures
        registration(params).identifier() == "github:"@ + params[1].text@,
        registration(params).headers == default_headers(),
{
}

/// A string as third argument names the format: it answers to `github:`
/// followed by that string, whatever the repository is called, unless the
/// fourth argument is a string of another text.
pub proof fn lemma_third_string_names_format(params: Seq<Value>)
    requires
        params.len() >= 3,
        params[2].shape is Str,
        params.len() > 3 && params[3].shape is Str ==> params[3].text@ == params[2].text@,
    ensures
        registration(params).identifier() == "github:"@ + params[2].text@,
{
}

/// The default headers carry two different names.
pub proof fn lemma_default_headers_distinct()
    ensures
        distinct_keys(default_headers()),
{
    reveal_strlit("Accept");
    reveal_strlit("X-GitHub-Api-Version");
    assert(default_headers()[0].0.len() != default_headers()[1].0.len());
}

/// The headers of the registered format are the default headers with the
/// supplied ones put on top. So every supplied name is set; under a supplied
/// name stands the value of the last supplied header of that name, also where
/// the name is a default one; and a default name that is not supplied keeps
/// its default value.
pub proof fn lemma_supplied_headers_win(params: Seq<Value>)
    requires
        params.len() >= 2,
    ensures
        registration(params).headers == put_all(default_headers(), supplied_headers(params)),
        distinct_keys(registration(params).headers),
        forall|j: int|
            0 <= j < supplied_headers(params).len() ==> as_map(
                registration(params).headers,
            ).contains_key((#[trigger] supplied_headers(params)[j]).0),
        forall|j: int|
            0 <= j < supplied_headers(params).len() && is_last_of_name(supplied_headers(params), j)
                ==> as_map(registration(params).headers)[(#[trigger] supplied_headers(
                params,
            )[j]).0] == supplied_headers(params)[j].1,
        forall|k: Seq<char>|
            as_map(registration(params).headers).contains_key(k) <==> has_key(default_headers(), k)
                || has_key(supplied_headers(params), k),
        forall|k: Seq<char>|
            has_key(default_headers(), k) && !has_key(supplied_headers(params), k) ==> #[trigger] as_map(
                registration(params).headers,
            )[k] == as_map(default_headers())[k],
{
    let third = if params.len() > 2 {
        headers_in(params[2])
    } else {
        Seq::empty()
    };
    let fourth = if params.len() > 3 {
        headers_in(params[3])
    } else {
        Seq::empty()
    };
    assert(registration(params).headers == put_all(put_all(default_headers(), third), fourth));
    lemma_put_all_concat(default_headers(), third, fourth);
    lemma_default_headers_distinct();
    lemma_put_all_distinct(default_headers(), supplied_headers(params));
    lemma_put_all_last_wins(default_headers(), supplied_headers(params));
    assert forall|j: int| 0 <= j < supplied_headers(params).len() implies as_map(
        registration(params).headers,
    ).contains_key((#[trigger] supplied_headers(params)[j]).0) by {
        assert(has_key(supplied_headers(params), supplied_headers(params)[j].0));
    }
}

/// The library that documents call as `GitHub`.
#[derive(Default)]
pub struct GitHubLibrary;

impl GitHubLibrary {
    /// The scope under which the host offers the library.
    pub fn scope(&self) -> (r: String)
        ensures
            r@ == "GitHub"@,
    {
        "GitHub".to_owned()
    }

    /// Calls the function `name` of the library. `addFormat` with at least
    /// two arguments gives the format for the host to load; with fewer it
    /// fails with `MissingArguments`. Any other name fails with
    /// `UnknownFunction`.
    pub fn call(&self, name: &str, parameters: &Vec<Value>) -> (r: Result<
        GitHubFormat,
        GitHubError,
    >)
        ensures
            match r {
                Ok(format) => name@ == "addFormat"@ && parameters@.len() >= 2 && format@
                    == registration(parameters@),
                Err(GitHubError::MissingArguments) => name@ == "addFormat"@ && parameters@.len()
                    < 2,
                Err(GitHubError::UnknownFunction(asked)) => name@ != "addFormat"@ && asked@
                    == name@,
                Err(GitHubError::Fetch(_)) => false,
            },
    {
        let asked = name.to_owned();
        if asked == "addFormat".to_owned() {
            if parameters.len() >= 2 {
                let owner = parameters[0].text.as_str();
                let repo = parameters[1].text.as_str();
                let mut format = GitHubFormat::new(repo, owner);
                if parameters.len() > 2 {
                    apply(&mut format, &parameters[2]);
                }
                if parameters.len() > 3 {
                    apply(&mut format, &parameters[3]);
                }
                return Ok(format);
            }
            return Err(GitHubError::MissingArguments);
        }
        Err(GitHubError::UnknownFunction(asked))
    }
}

/// Reads one optional argument into `format`.
fn apply(format: &mut GitHubFormat, arg: &Value)
    ensures
        final(format)@ == applied(old(format)@, *arg),
{
    match &arg.shape {
        Shape::Array(items) => {
            let ghost base = format.headers.pairs();
            let n = items.len();
            let mut i: usize = 0;
            while i < n
                invariant
                    i <= n,
                    n == items.len(),
                    format.repo_id == old(format).repo_id,
                    format.owner == old(format).owner,
                    format.repo == old(format).repo,
                    base == old(format).headers.pairs(),
                    format.headers.pairs() == put_all(
                        base,
                        items@.take(i as int).filter_map(header_reader()),
                    ),
                decreases n - i,
            {
                let ghost read = items@.take(i as int).filter_map(header_reader());
                proof {
                    items@.lemma_filter_map_take_succ(header_reader(), i as int);
                    assert(header_reader()(items@[i as int]) == header_in(items@[i as int]));
                    assert(items@.take(i + 1).filter_map(header_reader()) == match header_in(
                        items@[i as int],
                    ) {
                        Some(pair) => read.push(pair),
                        None => read,
                    }) by {
                        match header_in(items@[i as int]) {
                            Some(pair) => {
                                assert(read + seq![pair] =~= read.push(pair));
                            },
                            None => {
                                assert(read + Seq::empty() =~= read);
                            },
                        }
                    }
                }
                match &items[i].shape {
                    Shape::Tuple(parts) => {
                        if parts.len() == 2 {
                            let key = parts[0].text.clone();
                            let value = parts[1].text.clone();
                            proof {
                                lemma_put_all_push(base, read, (key@, value@));
                            }
                            format.headers.insert(key, value);
                        }
                    },
                    _ => {},
                }
                i += 1;
            }
            assert(items@.take(n as int) =~= items@);
        },
        Shape::Str => {
            format.repo_id = arg.text.clone();
            proof {
                assert(put_all(old(format).headers.pairs(), Seq::empty()) == old(
                    format,
                ).headers.pairs());
            }
        },
        _ => {},
    }
}

} // verus!
