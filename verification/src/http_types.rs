//! Headers and responses in a form that depends on no transport.

use vstd::prelude::*;
use vstd::std_specs::convert::IntoSpec;
use vstd::string::*;

verus! {

/// One header: a name and a value.
#[derive(Debug)]
pub struct Header<T: Into<String>> {
    pub name: T,
    pub value: T,
}

impl<T: Into<String>> Header<T> {
    /// The name and the value, each converted into a string.
    pub fn into_tuple(self) -> (pair: (String, String))
        ensures
            T::obeys_into_spec() ==> pair == (self.name.into_spec(), self.value.into_spec()),
    {
        (self.name.into(), self.value.into())
    }
}

/// The headers of a request, each name with its value, in the order in which
/// they came. A name may occur more than once.
#[derive(Debug)]
pub struct HeaderMap {
    entries: Vec<(String, String)>,
}

/// The values that `entries` holds under `name`, in their order.
pub open spec fn values_under(entries: Seq<(Seq<char>, Seq<char>)>, name: Seq<char>) -> Seq<
    Seq<char>,
>
    decreases entries.len(),
{
    if entries.len() == 0 {
        Seq::empty()
    } else if entries.last().0 == name {
        values_under(entries.drop_last(), name).push(entries.last().1)
    } else {
        values_under(entries.drop_last(), name)
    }
}

impl View for HeaderMap {
    type V = Seq<(Seq<char>, Seq<char>)>;

    closed spec fn view(&self) -> Seq<(Seq<char>, Seq<char>)> {
        Seq::new(self.entries@.len(), |i: int| (self.entries@[i].0@, self.entries@[i].1@))
    }
}

impl HeaderMap {
    pub fn new() -> (map: HeaderMap)
        ensures
            map@ == Seq::<(Seq<char>, Seq<char>)>::empty(),
    {
        let map = HeaderMap { entries: Vec::new() };
        assert(map@ =~= Seq::<(Seq<char>, Seq<char>)>::empty());
        map
    }

    /// Takes the headers over as they are: every pair, in its place.
    pub fn from_pairs(pairs: Vec<(String, String)>) -> (map: HeaderMap)
        ensures
            map@.len() == pairs@.len(),
            forall|i: int|
                0 <= i < pairs@.len() ==> #[trigger] map@[i] == (pairs@[i].0@, pairs@[i].1@),
    {
        HeaderMap { entries: pairs }
    }

    pub fn into_inner(self) -> (pairs: Vec<(String, String)>)
        ensures
            self@.len() == pairs@.len(),
            forall|i: int|
                0 <= i < pairs@.len() ==> #[trigger] self@[i] == (pairs@[i].0@, pairs@[i].1@),
    {
        self.entries
    }

    pub fn len(&self) -> (len: usize)
        ensures
            len == self@.len(),
    {
        self.entries.len()
    }

    /// Adds a header behind those that are there.
    pub fn append(&mut self, name: String, value: String)
        ensures
            final(self)@ == old(self)@.push((name@, value@)),
    {
        self.entries.push((name, value));
        assert(self@ =~= old(self)@.push((name@, value@)));
    }

    /// The values that stand under `name`, in the order in which they came.
    pub fn get_all(&self, name: &str) -> (values: Vec<String>)
        ensures
            values.deep_view() == values_under(self@, name@),
    {
        let mut values: Vec<String> = Vec::new();
        let mut i: usize = 0;
        assert(self@.subrange(0, 0) =~= Seq::<(Seq<char>, Seq<char>)>::empty());
        assert(values.deep_view() =~= Seq::<Seq<char>>::empty());
        while i < self.entries.len()
            invariant
                i <= self.entries.len(),
                self@.len() == self.entries.len(),
                values.deep_view() == values_under(self@.subrange(0, i as int), name@),
            decreases self.entries.len() - i,
        {
            let ghost before = values.deep_view();
            let entry = &self.entries[i];
            proof {
                let next = self@.subrange(0, i + 1);
                assert(next.drop_last() =~= self@.subrange(0, i as int));
                assert(next.last() == (entry.0@, entry.1@));
            }
            if str_equal(entry.0.as_str(), name) {
                values.push(entry.1.clone());
                assert(values.deep_view() =~= before.push(entry.1@));
            }
            i += 1;
        }
        assert(self@.subrange(0, i as int) =~= self@);
        values
    }
}

/// Whether two strings hold the same characters.
pub fn str_equal(left: &str, right: &str) -> (equal: bool)
    ensures
        equal == (left@ == right@),
{
    let n: usize = left.unicode_len();
    if n != right.unicode_len() {
        return false;
    }
    let mut i: usize = 0;
    while i < n
        invariant
            n == left@.len(),
            n == right@.len(),
            i <= n,
            forall|k: int| 0 <= k < i ==> left@[k] == right@[k],
        decreases n - i,
    {
        if left.get_char(i) != right.get_char(i) {
            return false;
        }
        i += 1;
    }
    assert(left@ =~= right@);
    true
}

/// A response as a client received it.
#[derive(Debug)]
pub struct Response {
    pub status: u16,
    pub headers: HeaderMap,
    pub body: Vec<u8>,
    pub expected_url_path: String,
}

impl Response {
    pub fn new(status: u16, headers: HeaderMap, body: Vec<u8>, expected_url_path: String) -> (response:
        Response)
        ensures
            response == (Response { status, headers, body, expected_url_path }),
    {
        Response { status, headers, body, expected_url_path }
    }

    /// Whether the status is one of success, from 200 up to 299.
    pub fn is_success(&self) -> (success: bool)
        ensures
            success == (200 <= self.status < 300),
    {
        300 > self.status && self.status >= 200
    }
}

} // verus!
