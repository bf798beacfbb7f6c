//! Reading a request: which route it takes, the identifier in its path,
//! and its body.

use crate::number::{integer_of, parse_integer};
use crate::response::Failure;
use crate::text::{
    chars_of, is_solid, is_space, lacks, lemma_first_piece, lemma_piece_after, lemma_run,
    lemma_run_is, lemma_run_past, part_of, piece, piece_bounds, run, scan, starts_with, Stop,
};
use crate::user::{decode_user, decoded_user, User, UserModel};
use vstd::prelude::*;

verus! {

/// The number of bytes that are read of a request. What a client sends
/// beyond them is not looked at.
pub const REQUEST_LIMIT: usize = 1024;

/// What a request asks for.
#[derive(Clone, Copy, Debug, PartialEq, Eq, Structural)]
pub enum Route {
    /// Create a user.
    Create,
    /// Read one user.
    GetOne,
    /// Read all users.
    GetAll,
    /// Change a user.
    Update,
    /// Remove a user.
    Delete,
    /// Nothing that this service offers.
    Unmatched,
}

/// The route of `request`: the first of five prefixes that the text of the
/// request begins with decides, in this order. A user is created under
/// `/user`, everything else goes by `/users`.
pub open spec fn route_of(request: Seq<char>) -> Route {
    if "POST /user"@.is_prefix_of(request) {
        Route::Create
    } else if "GET /users/"@.is_prefix_of(request) {
        Route::GetOne
    } else if "GET /users"@.is_prefix_of(request) {
        Route::GetAll
    } else if "PUT /users"@.is_prefix_of(request) {
        Route::Update
    } else if "DELETE /users/"@.is_prefix_of(request) {
        Route::Delete
    } else {
        Route::Unmatched
    }
}

/// Finds the route of `request`.
pub fn route(request: &str) -> (route: Route)
    ensures
        route == route_of(request@),
{
    let v = chars_of(request);
    if starts_with(&v, "POST /user") {
        Route::Create
    } else if starts_with(&v, "GET /users/") {
        Route::GetOne
    } else if starts_with(&v, "GET /users") {
        Route::GetAll
    } else if starts_with(&v, "PUT /users") {
        Route::Update
    } else if starts_with(&v, "DELETE /users/") {
        Route::Delete
    } else {
        Route::Unmatched
    }
}

/// The path of `request`: what stands from the first `/` of the text up to
/// the next white space. It is empty where the text has no `/`, or none on
/// its first line.
pub open spec fn path_of(request: Seq<char>) -> Seq<char> {
    let start = run(request, Stop::At('/'));
    let rest = request.skip(start);
    if lacks(request.take(start), '\n') {
        rest.take(run(rest, Stop::Space))
    } else {
        Seq::empty()
    }
}

/// The parameter in the path of `request`: the third of the segments that
/// `/` cuts the path into, the one before the first `/` counted. In
/// `GET /users/7 HTTP/1.1` the path is `/users/7` and the parameter `7`. It
/// is empty where the path has no third segment.
pub open spec fn path_parameter(request: Seq<char>) -> Seq<char> {
    match piece(path_of(request), '/', 2) {
        Some(segment) => segment,
        None => Seq::empty(),
    }
}

/// Returns the parameter in the path of `request`.
pub fn get_id(request: &str) -> (id: &str)
    ensures
        id@ == path_parameter(request@),
{
    let v = chars_of(request);
    assert(v@.skip(0) =~= v@);
    let start = scan(&v, 0, Stop::At('/'));
    let line_end = scan(&v, 0, Stop::At('\n'));
    proof {
        lemma_run(v@, Stop::At('\n'));
        if line_end < start {
            assert(v@.take(start as int)[line_end as int] == '\n');
        } else {
            assert forall|i: int| 0 <= i < start implies #[trigger] v@.take(start as int)[i]
                != '\n' by {
                assert(!Stop::At('\n').holds(v@[i]));
            }
        }
    }
    if line_end < start {
        let empty = request.substring_char(0, 0);
        assert(empty@ =~= Seq::<char>::empty());
        return empty;
    }
    let end = scan(&v, start, Stop::Space);
    let path = part_of(&v, start, end);
    assert(path@ =~= path_of(request@));
    match piece_bounds(&path, '/', 2) {
        Some((from, to)) => {
            let id = request.substring_char(start + from, start + to);
            assert(id@ =~= path@.subrange(from as int, to as int));
            id
        },
        None => {
            let empty = request.substring_char(0, 0);
            assert(empty@ =~= Seq::<char>::empty());
            empty
        },
    }
}

/// The identifier that `request` names: its path parameter, read as an
/// integer.
pub open spec fn identifier_of(request: Seq<char>) -> Option<int> {
    integer_of(path_parameter(request))
}

/// Reads the identifier that `request` names.
pub fn get_identifier(request: &str) -> (id: Result<i32, Failure>)
    ensures
        match id {
            Ok(n) => identifier_of(request@) == Some(n as int),
            Err(failure) => failure == Failure::InvalidIdentifier && identifier_of(
                request@,
            ).is_none(),
        },
{
    let parameter = chars_of(get_id(request));
    match parse_integer(&parameter) {
        Some(n) => Ok(n),
        None => Err(Failure::InvalidIdentifier),
    }
}

/// Whether the blank line that ends the head of a request, a carriage
/// return and a line feed twice, begins at index `i` of `s`.
pub open spec fn blank_line_at(s: Seq<char>, i: int) -> bool {
    &&& 0 <= i
    &&& i + 4 <= s.len()
    &&& s[i] == '\r'
    &&& s[i + 1] == '\n'
    &&& s[i + 2] == '\r'
    &&& s[i + 3] == '\n'
}

/// The index at which the first blank line of `s` begins, or the length
/// of `s` where it has none.
pub open spec fn first_blank_line(s: Seq<char>) -> int
    decreases s.len(),
{
    if s.len() < 4 {
        s.len() as int
    } else if blank_line_at(s, 0) {
        0
    } else {
        1 + first_blank_line(s.skip(1))
    }
}

/// What follows the last blank line of `s`, the blank lines taken from
/// left to right, each beginning after the one before has ended; `s` itself
/// where it has none.
pub open spec fn last_part(s: Seq<char>) -> Seq<char>
    decreases s.len(),
{
    let i = first_blank_line(s);
    if 0 <= i && i + 4 <= s.len() {
        last_part(s.skip(i + 4))
    } else {
        s
    }
}

/// Whether `request` holds a blank line, and so a body.
pub open spec fn has_body(request: Seq<char>) -> bool {
    first_blank_line(request) < request.len()
}

/// The body of `request`: what follows its last blank line, and nothing
/// where it has no blank line.
pub open spec fn body_text(request: Seq<char>) -> Seq<char> {
    if has_body(request) {
        last_part(request)
    } else {
        Seq::empty()
    }
}

/// `first_blank_line` lies within `s`, and a blank line begins there and
/// nowhere before.
pub proof fn lemma_first_blank_line(s: Seq<char>)
    ensures
        0 <= first_blank_line(s) <= s.len(),
        first_blank_line(s) < s.len() ==> blank_line_at(s, first_blank_line(s)),
        forall|j: int| 0 <= j < first_blank_line(s) ==> !blank_line_at(s, j),
    decreases s.len(),
{
    if s.len() < 4 {
    } else if blank_line_at(s, 0) {
    } else {
        let t = s.skip(1);
        lemma_first_blank_line(t);
        assert forall|j: int| 0 <= j < first_blank_line(s) implies !blank_line_at(s, j) by {
            if j > 0 {
                assert(blank_line_at(s, j) == blank_line_at(t, j - 1));
            }
        }
        let k = first_blank_line(t);
        assert(blank_line_at(t, k) == blank_line_at(s, k + 1));
    }
}

/// `first_blank_line` is the only index of which `lemma_first_blank_line`
/// holds.
pub proof fn lemma_first_blank_line_is(s: Seq<char>, k: int)
    requires
        0 <= k <= s.len(),
        forall|j: int| 0 <= j < k ==> !blank_line_at(s, j),
        blank_line_at(s, k) || k == s.len(),
    ensures
        first_blank_line(s) == k,
{
    lemma_first_blank_line(s);
    let r = first_blank_line(s);
    if r < k {
        assert(!blank_line_at(s, r));
    } else if k < r {
        assert(!blank_line_at(s, k));
    }
}

/// Tells whether a blank line begins at index `i` of `v`.
fn is_blank_line_at(v: &Vec<char>, i: usize) -> (b: bool)
    requires
        i <= v.len(),
    ensures
        b == blank_line_at(v@, i as int),
{
    v.len() - i >= 4 && v[i] == '\r' && v[i + 1] == '\n' && v[i + 2] == '\r' && v[i + 3] == '\n'
}

/// Returns the body of `request`, if it has one.
pub fn request_body(request: &str) -> (body: Option<&str>)
    ensures
        match body {
            Some(text) => has_body(request@) && text@ == body_text(request@),
            None => !has_body(request@),
        },
{
    let v = chars_of(request);
    let mut start: usize = 0;
    let mut found = false;
    let mut i: usize = 0;
    assert(v@.skip(0) =~= v@);
    while i < v.len()
        invariant
            start <= i <= v.len(),
            v@ == request@,
            last_part(v@) == last_part(v@.skip(start as int)),
            found ==> first_blank_line(v@) < v.len(),
            !found ==> start == 0,
            forall|j: int| start <= j < i ==> !blank_line_at(v@, j),
        decreases v.len() - i,
    {
        if is_blank_line_at(&v, i) {
            proof {
                let t = v@.skip(start as int);
                assert forall|j: int| 0 <= j < i - start implies !blank_line_at(t, j) by {
                    assert(blank_line_at(t, j) == blank_line_at(v@, start + j));
                }
                assert(blank_line_at(t, i - start) == blank_line_at(v@, i as int));
                lemma_first_blank_line_is(t, i - start);
                assert(t.skip(i - start + 4) =~= v@.skip(i + 4));
                assert(v@.skip(0) =~= v@);
            }
            start = i + 4;
            i = start;
            found = true;
        } else {
            i += 1;
        }
    }
    proof {
        let t = v@.skip(start as int);
        assert forall|j: int| 0 <= j < t.len() implies !blank_line_at(t, j) by {
            assert(blank_line_at(t, j) == blank_line_at(v@, start + j));
        }
        lemma_first_blank_line_is(t, t.len() as int);
        assert(v@.skip(0) =~= v@);
    }
    if found {
        let body = request.substring_char(start, v.len());
        assert(body@ =~= v@.skip(start as int));
        Some(body)
    } else {
        None
    }
}

/// The user that the body of `request` describes; none where the request
/// has no body.
pub open spec fn user_in(request: Seq<char>) -> Option<UserModel> {
    if has_body(request) {
        decoded_user(body_text(request))
    } else {
        None
    }
}

/// Reads the user that the body of `request` describes.
pub fn get_user_request_body(request: &str) -> (user: Result<User, Failure>)
    ensures
        match user {
            Ok(u) => user_in(request@) == Some(u@),
            Err(failure) => failure == Failure::MalformedBody && user_in(request@).is_none(),
        },
{
    match request_body(request) {
        Some(body) => decode_user(body),
        None => Err(Failure::MalformedBody),
    }
}


/// The path parameter of a request that reads a method on one line, `/`,
/// a collection, `/`, a word, and then goes on with white space, with `/`,
/// or not at all, is that word. Neither the collection nor the word holds
/// white space or `/`.
pub proof fn law_path_parameter(
    method: Seq<char>,
    collection: Seq<char>,
    word: Seq<char>,
    rest: Seq<char>,
)
    requires
        lacks(method, '/'),
        lacks(method, '\n'),
        lacks(collection, '/'),
        is_solid(collection),
        lacks(word, '/'),
        is_solid(word),
        rest.len() == 0 || is_space(rest[0]) || rest[0] == '/',
    ensures
        path_parameter(method + seq!['/'] + collection + seq!['/'] + word + rest) == word,
{
    let request = method + seq!['/'] + collection + seq!['/'] + word + rest;
    let solid = seq!['/'] + collection + seq!['/'] + word;
    let tail = solid + rest;
    assert(request =~= method + tail);
    assert(tail[0] == '/');
    lemma_run_is(tail, Stop::At('/'), 0);
    lemma_run_past(method, tail, Stop::At('/'));
    let start = run(request, Stop::At('/'));
    assert(request.take(start) =~= method);
    assert(request.skip(start) =~= tail);
    assert forall|i: int| 0 <= i < solid.len() implies !Stop::Space.holds(#[trigger] solid[i]) by {
        if 1 <= i <= collection.len() {
            assert(solid[i] == collection[i - 1]);
        } else if i > collection.len() + 1 {
            assert(solid[i] == word[i - collection.len() - 2]);
        }
    }
    lemma_run_past(solid, rest, Stop::Space);
    lemma_run(rest, Stop::Space);
    let kept = rest.take(run(rest, Stop::Space));
    let path = path_of(request);
    assert(path =~= solid + kept);
    let last = word + kept;
    assert(path =~= Seq::<char>::empty() + seq!['/'] + (collection + seq!['/'] + last));
    lemma_piece_after(Seq::<char>::empty(), '/', collection + seq!['/'] + last, 1);
    lemma_piece_after(collection, '/', last, 0);
    lemma_first_piece(word, '/', kept);
    if kept.len() > 0 {
        assert(kept[0] == rest[0]);
        assert(!is_space(rest[0])) by {
            if is_space(rest[0]) {
                lemma_run_is(rest, Stop::Space, 0);
            }
        }
        lemma_run_is(kept, Stop::At('/'), 0);
    }
    assert(kept.take(run(kept, Stop::At('/'))) =~= Seq::<char>::empty()) by {
        lemma_run(kept, Stop::At('/'));
    }
    assert(word + Seq::<char>::empty() =~= word);
}

} // verus!
