//! The registry of remote functions: which function answers a path and verb.
//!
//! The entries are kept in a `DashMap`, so that a lookup never sees an entry
//! half inserted. This module declares the map and states, without proof,
//! what its operations do to the entries.

use crate::request_parts::{RequestMethod, Verb};
use crate::url_parts::{sanitize_path, sanitized, view_text};
use dashmap::DashMap;
use vstd::prelude::*;

verus! {

#[verifier::external_type_specification]
#[verifier::external_body]
#[verifier::reject_recursive_types(K)]
#[verifier::reject_recursive_types(V)]
#[verifier::reject_recursive_types(S)]
pub struct ExDashMap<K, V, S>(DashMap<K, V, S>);

#[verifier::external_type_specification]
#[verifier::external_body]
pub struct ExHttpMethod(http::Method);

/// The map in which the remote functions are kept: from path and method to
/// the handle of the function.
pub type FunctionMap = DashMap<(String, http::Method), usize>;

/// The entries of a map of remote functions: for each path and verb that
/// was registered, the handle that was registered last.
pub uninterp spec fn registry_entries(map: FunctionMap) -> Map<
    (Seq<char>, Verb),
    usize,
>;

/// `DashMap::new`: a map without entries.
#[verifier::external_body]
pub(crate) fn registry_new() -> (fresh: FunctionMap)
    ensures
        registry_entries(fresh) =~= Map::empty(),
{
    DashMap::new()
}

/// `DashMap::insert`: the key has the new value, whatever it had before;
/// no other entry changes.
#[verifier::external_body]
pub(crate) fn registry_insert(
    map: &mut FunctionMap,
    path: String,
    verb: Verb,
    handle: usize,
)
    ensures
        registry_entries(*final(map)) == registry_entries(*old(map)).insert((path@, verb), handle),
{
    let method = match verb {
        Verb::Get => http::Method::GET,
        Verb::Post => http::Method::POST,
        Verb::Put => http::Method::PUT,
        Verb::Delete => http::Method::DELETE,
        Verb::Patch => http::Method::PATCH,
        Verb::Head => http::Method::HEAD,
        Verb::Options => http::Method::OPTIONS,
        Verb::Connect => http::Method::CONNECT,
        Verb::Trace => http::Method::TRACE,
    };
    map.insert((path, method), handle);
}

/// `DashMap::get`: the value that the key has, if it has one.
#[verifier::external_body]
pub(crate) fn registry_get(
    map: &FunctionMap,
    path: &str,
    verb: Verb,
) -> (r: Option<usize>)
    ensures
        r == if registry_entries(*map).dom().contains((path@, verb)) {
            Some(registry_entries(*map)[(path@, verb)])
        } else {
            None
        },
{
    let method = match verb {
        Verb::Get => http::Method::GET,
        Verb::Post => http::Method::POST,
        Verb::Put => http::Method::PUT,
        Verb::Delete => http::Method::DELETE,
        Verb::Patch => http::Method::PATCH,
        Verb::Head => http::Method::HEAD,
        Verb::Options => http::Method::OPTIONS,
        Verb::Connect => http::Method::CONNECT,
        Verb::Trace => http::Method::TRACE,
    };
    map.get(&(path.to_owned(), method)).map(|entry| *entry.value())
}

/// Why a remote call finds no function.
#[derive(Clone, Copy, Debug, PartialEq, Eq, Structural)]
pub enum RpcError {
    /// The path of the call cannot be read.
    BadRequest,
    /// No function is registered for the path and verb.
    NotFound,
}

impl RpcError {
    /// The status with which the error is answered.
    pub open spec fn status_spec(&self) -> u16 {
        match self {
            RpcError::BadRequest => 400,
            RpcError::NotFound => 404,
        }
    }

    /// The status with which the error is answered.
    pub fn status(&self) -> (r: u16)
        ensures
            r == self.status_spec(),
    {
        match self {
            RpcError::BadRequest => 400,
            RpcError::NotFound => 404,
        }
    }
}

/// The function that answers a call, given the path as it was read and the
/// verb of the request.
pub open spec fn lookup_outcome(
    entries: Map<(Seq<char>, Verb), usize>,
    path: Option<Seq<char>>,
    verb: Option<Verb>,
) -> Result<usize, RpcError> {
    match path {
        None => Err(RpcError::BadRequest),
        Some(p) => match verb {
            None => Err(RpcError::NotFound),
            Some(v) => if entries.dom().contains((p, v)) {
                Ok(entries[(p, v)])
            } else {
                Err(RpcError::NotFound)
            },
        },
    }
}

/// The key of an entry, as the contracts see it.
pub open spec fn key_view(key: (String, Verb)) -> (Seq<char>, Verb) {
    (key.0@, key.1)
}

/// The remote functions of an application.
pub struct Registry {
    map: FunctionMap,
    keys: Vec<(String, Verb)>,
}

impl View for Registry {
    type V = Map<(Seq<char>, Verb), usize>;

    closed spec fn view(&self) -> Map<(Seq<char>, Verb), usize> {
        registry_entries(self.map)
    }
}

impl Registry {
    /// A registry as `new` makes it and `register_explicit` keeps it: the
    /// kept keys are those of the entries, each once.
    pub closed spec fn wf(&self) -> bool {
        &&& forall|i: int|
            0 <= i < self.keys@.len() ==> self@.dom().contains(key_view(#[trigger] self.keys@[i]))
        &&& forall|k: (Seq<char>, Verb)|
            self@.dom().contains(k) ==> exists|i: int|
                0 <= i < self.keys@.len() && key_view(#[trigger] self.keys@[i]) == k
        &&& forall|i: int, j: int|
            0 <= i < j < self.keys@.len() ==> key_view(#[trigger] self.keys@[i]) != key_view(
                #[trigger] self.keys@[j],
            )
    }

    /// The registered keys in the order of their first registration.
    pub closed spec fn keys(&self) -> Seq<(Seq<char>, Verb)> {
        self.keys@.map_values(|k: (String, Verb)| key_view(k))
    }

    /// A registry without functions.
    pub fn new() -> (r: Registry)
        ensures
            r.wf(),
            r@ == Map::<(Seq<char>, Verb), usize>::empty(),
            r.keys() == Seq::<(Seq<char>, Verb)>::empty(),
    {
        let r = Registry { map: registry_new(), keys: Vec::new() };
        proof {
            assert(r.keys() =~= Seq::<(Seq<char>, Verb)>::empty());
        }
        r
    }

    /// Registers the function with the handle `handle` for a path and a
    /// verb. A function registered earlier for the two is replaced.
    pub fn register_explicit(&mut self, path: &str, verb: Verb, handle: usize)
        requires
            old(self).wf(),
        ensures
            final(self).wf(),
            final(self)@ == old(self)@.insert((path@, verb), handle),
            final(self).keys() == if old(self)@.dom().contains((path@, verb)) {
                old(self).keys()
            } else {
                old(self).keys().push((path@, verb))
            },
    {
        let known = registry_get(&self.map, path, verb);
        registry_insert(&mut self.map, path.to_owned(), verb, handle);
        if known.is_none() {
            self.keys.push((path.to_owned(), verb));
            proof {
                let last = self.keys@.len() - 1;
                assert(self.keys() =~= old(self).keys().push((path@, verb)));
                assert(key_view(self.keys@[last]) == (path@, verb));
                assert forall|i: int| 0 <= i < self.keys@.len() implies self@.dom().contains(
                    key_view(#[trigger] self.keys@[i]),
                ) by {
                    if i < last {
                        assert(self.keys@[i] == old(self).keys@[i]);
                    }
                }
                assert forall|k: (Seq<char>, Verb)| self@.dom().contains(k) implies exists|i: int|
                    0 <= i < self.keys@.len() && key_view(#[trigger] self.keys@[i]) == k by {
                    if k == (path@, verb) {
                        assert(key_view(self.keys@[last]) == k);
                    } else {
                        assert(old(self)@.dom().contains(k));
                        let i = choose|i: int|
                            0 <= i < old(self).keys@.len() && key_view(
                                #[trigger] old(self).keys@[i],
                            ) == k;
                        assert(self.keys@[i] == old(self).keys@[i]);
                        assert(key_view(self.keys@[i]) == k);
                    }
                }
                assert forall|i: int, j: int| 0 <= i < j < self.keys@.len() implies key_view(
                    #[trigger] self.keys@[i],
                ) != key_view(#[trigger] self.keys@[j]) by {
                    assert(self.keys@[i] == old(self).keys@[i]);
                    if j < last {
                        assert(self.keys@[j] == old(self).keys@[j]);
                    } else {
                        assert(old(self)@.dom().contains(key_view(old(self).keys@[i])));
                    }
                }
            }
        } else {
            proof {
                assert(self@.dom() =~= old(self)@.dom());
                assert forall|k: (Seq<char>, Verb)| self@.dom().contains(k) implies exists|i: int|
                    0 <= i < self.keys@.len() && key_view(#[trigger] self.keys@[i]) == k by {
                    assert(old(self)@.dom().contains(k));
                    let i = choose|i: int|
                        0 <= i < old(self).keys@.len() && key_view(#[trigger] old(self).keys@[i])
                            == k;
                    assert(key_view(self.keys@[i]) == k);
                }
            }
        }
    }

    /// The paths and verbs of the registered functions, in the order of
    /// their first registration.
    pub fn server_fn_paths(&self) -> (r: Vec<(String, Verb)>)
        ensures
            r@.map_values(|k: (String, Verb)| key_view(k)) == self.keys(),
    {
        let mut out: Vec<(String, Verb)> = Vec::new();
        let n: usize = self.keys.len();
        let mut i: usize = 0;
        while i < n
            invariant
                i <= n,
                n == self.keys@.len(),
                out@.len() == i,
                forall|k: int| 0 <= k < i ==> key_view(out@[k]) == key_view(self.keys@[k]),
            decreases n - i,
        {
            out.push((self.keys[i].0.clone(), self.keys[i].1));
            i = i + 1;
        }
        proof {
            assert(out@.map_values(|k: (String, Verb)| key_view(k)) =~= self.keys());
        }
        out
    }

    /// The handle registered for exactly this path and verb.
    pub fn lookup(&self, path: &str, verb: Verb) -> (r: Option<usize>)
        ensures
            r == if self@.dom().contains((path@, verb)) {
                Some(self@[(path@, verb)])
            } else {
                None
            },
    {
        registry_get(&self.map, path, verb)
    }

    /// Finds the function for a path that was read already: a path that
    /// could not be read is a bad request; a method that is no standard
    /// verb, or a path and verb without a function, is not found.
    pub fn find_sanitized(&self, path: Option<String>, method: &RequestMethod) -> (r: Result<
        usize,
        RpcError,
    >)
        ensures
            r == lookup_outcome(self@, view_text(path), method.verb_spec()),
    {
        match path {
            None => Err(RpcError::BadRequest),
            Some(p) => match method.verb() {
                None => Err(RpcError::NotFound),
                Some(v) => match self.lookup(p.as_str(), v) {
                    Some(handle) => Ok(handle),
                    None => Err(RpcError::NotFound),
                },
            },
        }
    }

    /// Finds the function that answers a call: the path is first read
    /// against a fixed base, which takes its query and relative segments
    /// out; then the function registered for the result and the verb of the
    /// request is looked up.
    pub fn get_server_fn_by_path_and_method(&self, path: &str, method: &RequestMethod) -> (r: Result<
        usize,
        RpcError,
    >)
        ensures
            r == lookup_outcome(self@, sanitized(path@), method.verb_spec()),
    {
        self.find_sanitized(sanitize_path(path), method)
    }
}

} // verus!
