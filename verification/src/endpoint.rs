//! The operations of a document, each with its path and its method.

use crate::document::{Document, Operation, PathItem, RefOr};
use crate::outcome::{lemma_listed_end, lemma_listed_step, listed};
use vstd::prelude::*;

verus! {

/// An operation with the path template and the method that it answers to, as
/// contracts speak of it.
pub type Endpoint = (Seq<char>, Seq<char>, Operation);

/// The endpoints that a list holds.
pub open spec fn endpoints_of(list: Seq<(&str, &str, &Operation)>) -> Seq<Endpoint> {
    list.map_values(|entry: (&str, &str, &Operation)| (entry.0@, entry.1@, *entry.2))
}

/// The endpoint for `method` on `path`, if the path has an operation for it.
pub open spec fn method_endpoint(
    path: Seq<char>,
    method: Seq<char>,
    operation: Option<Operation>,
) -> Seq<Endpoint> {
    match operation {
        Some(operation) => seq![(path, method, operation)],
        None => Seq::empty(),
    }
}

/// The endpoints of one path, in the order of the method table: get, put,
/// post, delete, options, head, patch, trace.
pub open spec fn path_item_endpoints(path: Seq<char>, item: PathItem) -> Seq<Endpoint> {
    method_endpoint(path, "get"@, item.get) + method_endpoint(path, "put"@, item.put)
        + method_endpoint(path, "post"@, item.post) + method_endpoint(
        path,
        "delete"@,
        item.delete,
    ) + method_endpoint(path, "options"@, item.options) + method_endpoint(
        path,
        "head"@,
        item.head,
    ) + method_endpoint(path, "patch"@, item.patch) + method_endpoint(
        path,
        "trace"@,
        item.trace,
    )
}

/// The endpoints of one entry of the paths; a reference has none.
pub open spec fn each_path_endpoints() -> spec_fn((String, RefOr<PathItem>)) -> Seq<Endpoint> {
    |entry: (String, RefOr<PathItem>)|
        match entry.1 {
            RefOr::Item(item) => path_item_endpoints(entry.0@, item),
            RefOr::Reference { .. } => Seq::empty(),
        }
}

/// The endpoints of a document: those of its paths in document order.
pub open spec fn endpoints(document: Document) -> Seq<Endpoint> {
    listed(document.paths@, each_path_endpoints(), 0)
}

/// Adds the endpoint for `method` on `path`, if there is one, to `out`.
fn push_method<'a>(
    out: &mut Vec<(&'a str, &'static str, &'a Operation)>,
    path: &'a str,
    method: &'static str,
    operation: &'a Option<Operation>,
)
    ensures
        endpoints_of(final(out)@) == endpoints_of(old(out)@) + method_endpoint(
            path@,
            method@,
            *operation,
        ),
{
    match operation {
        Some(operation) => {
            out.push((path, method, operation));
            assert(endpoints_of(out@) =~= endpoints_of(old(out)@) + seq![
                (path@, method@, *operation),
            ]);
        },
        None => {
            assert(endpoints_of(out@) + Seq::<Endpoint>::empty() =~= endpoints_of(out@));
        },
    }
}

impl PathItem {
    /// Adds the endpoints of this item, which stands at `path`, to `out`.
    fn push_operations<'a>(
        &'a self,
        path: &'a str,
        out: &mut Vec<(&'a str, &'static str, &'a Operation)>,
    )
        ensures
            endpoints_of(final(out)@) == endpoints_of(old(out)@) + path_item_endpoints(
                path@,
                *self,
            ),
    {
        let ghost before = endpoints_of(out@);
        push_method(out, path, "get", &self.get);
        push_method(out, path, "put", &self.put);
        push_method(out, path, "post", &self.post);
        push_method(out, path, "delete", &self.delete);
        push_method(out, path, "options", &self.options);
        push_method(out, path, "head", &self.head);
        push_method(out, path, "patch", &self.patch);
        push_method(out, path, "trace", &self.trace);
        assert(endpoints_of(out@) =~= before + path_item_endpoints(path@, *self));
    }
}

impl Document {
    /// Every operation of the document with its path and its method: paths
    /// in document order, the operations of a path in the order of the
    /// method table. A path that is a reference has none.
    pub fn operations<'a>(&'a self) -> (r: Vec<(&'a str, &'static str, &'a Operation)>)
        ensures
            endpoints_of(r@) == endpoints(*self),
    {
        let mut out: Vec<(&'a str, &'static str, &'a Operation)> = Vec::new();
        let mut i: usize = 0;
        assert(endpoints_of(out@) =~= Seq::<Endpoint>::empty());
        proof {
            lemma_listed_end(self.paths@, each_path_endpoints(), endpoints_of(out@));
        }
        while i < self.paths.len()
            invariant
                i <= self.paths@.len(),
                endpoints(*self) == endpoints_of(out@) + listed(
                    self.paths@,
                    each_path_endpoints(),
                    i as int,
                ),
            decreases self.paths@.len() - i,
        {
            proof {
                lemma_listed_step(self.paths@, each_path_endpoints(), endpoints_of(out@), i as int);
            }
            match &self.paths[i].1 {
                RefOr::Item(item) => {
                    item.push_operations(self.paths[i].0.as_str(), &mut out);
                },
                RefOr::Reference { .. } => {
                    assert(endpoints_of(out@) + Seq::<Endpoint>::empty() =~= endpoints_of(out@));
                },
            }
            i = i + 1;
        }
        proof {
            lemma_listed_end(self.paths@, each_path_endpoints(), endpoints_of(out@));
        }
        out
    }
}

} // verus!
