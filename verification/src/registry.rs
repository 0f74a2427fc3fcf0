//! Requirement documents and the registry built from them.
//!
//! One YAML document declares one requirement: a non-empty `id`, a `name`,
//! and optionally `details` and a `parent` identifier. Documents are parsed
//! one by one; a malformed one yields an error for the warning list and is
//! skipped. The registry maps each id to its requirement; a document loaded
//! later silently replaces an earlier one with the same id.

use crate::yaml::{yaml_error_message, yaml_field, yaml_from_str, yaml_parses, yaml_string_field};
use vstd::prelude::*;

verus! {

/// One declared requirement.
#[derive(Debug)]
pub struct Requirement {
    pub id: String,
    pub name: String,
    pub details: Option<String>,
    pub parent: Option<String>,
}

/// The mathematical value of a requirement.
pub ghost struct ReqView {
    pub id: Seq<char>,
    pub name: Seq<char>,
    pub details: Option<Seq<char>>,
    pub parent: Option<Seq<char>>,
}

/// The view of an optional string.
pub open spec fn opt_view(o: Option<String>) -> Option<Seq<char>> {
    match o {
        Some(s) => Some(s@),
        None => None,
    }
}

impl View for Requirement {
    type V = ReqView;

    open spec fn view(&self) -> ReqView {
        ReqView {
            id: self.id@,
            name: self.name@,
            details: opt_view(self.details),
            parent: opt_view(self.parent),
        }
    }
}

impl Requirement {
    /// A fresh requirement with the same value.
    pub fn duplicate(&self) -> (r: Requirement)
        ensures
            r@ == self@,
    {
        Requirement {
            id: self.id.clone(),
            name: self.name.clone(),
            details: match &self.details {
                Some(d) => Some(d.clone()),
                None => None,
            },
            parent: match &self.parent {
                Some(p) => Some(p.clone()),
                None => None,
            },
        }
    }
}

/// The views of a sequence of requirements.
pub open spec fn req_views(s: Seq<Requirement>) -> Seq<ReqView> {
    s.map_values(|r: Requirement| r@)
}

/// Why a requirement document was rejected.
#[derive(Debug)]
pub enum ParseError {
    /// The document is not well-formed YAML; carries the parser's report.
    Document(String),
    /// The document has no string field `id`.
    MissingId,
    /// The `id` field is the empty string.
    EmptyId,
    /// The document has no string field `name`.
    MissingName,
}

/// Assembles a requirement from its four fields: `id` must be present and
/// non-empty, `name` present; `details` and `parent` are free.
pub fn requirement_from_fields(
    id: Option<String>,
    name: Option<String>,
    details: Option<String>,
    parent: Option<String>,
) -> (r: Result<Requirement, ParseError>)
    ensures
        ({
            match opt_view(id) {
                None => r matches Err(e) && e is MissingId,
                Some(iv) => if iv.len() == 0 {
                    r matches Err(e) && e is EmptyId
                } else {
                    match opt_view(name) {
                        None => r matches Err(e) && e is MissingName,
                        Some(nv) => r matches Ok(q) && q@ == (ReqView {
                            id: iv,
                            name: nv,
                            details: opt_view(details),
                            parent: opt_view(parent),
                        }),
                    }
                },
            }
        }),
{
    match id {
        None => Err(ParseError::MissingId),
        Some(i) => {
            if i.unicode_len() == 0 {
                Err(ParseError::EmptyId)
            } else {
                match name {
                    None => Err(ParseError::MissingName),
                    Some(nm) => Ok(Requirement { id: i, name: nm, details, parent }),
                }
            }
        },
    }
}

/// Parses one requirement document. The YAML outcome is pinned by its
/// names: the text either fails to parse, or yields its string fields,
/// which `requirement_from_fields` assembles — so each result below comes
/// if and only if its clause says, and a returned requirement carries
/// exactly the document's fields, its id non-empty.
pub fn parse_requirement(text: &str) -> (r: Result<Requirement, ParseError>)
    ensures
        (r matches Err(e) && e is Document) <==> !yaml_parses(text@),
        r is Ok <==> (yaml_parses(text@) && (match yaml_string_field(text@, "id"@) {
            Some(i) => i.len() > 0,
            None => false,
        }) && yaml_string_field(text@, "name"@) is Some),
        r matches Ok(q) ==> Some(q@.id) == yaml_string_field(text@, "id"@) && Some(q@.name)
            == yaml_string_field(text@, "name"@) && q@.details == yaml_string_field(
            text@,
            "details"@,
        ) && q@.parent == yaml_string_field(text@, "parent"@),
        (r matches Err(e) && e is MissingId) <==> (yaml_parses(text@) && yaml_string_field(
            text@,
            "id"@,
        ) is None),
        (r matches Err(e) && e is EmptyId) <==> (yaml_parses(text@) && (
        match yaml_string_field(text@, "id"@) {
            Some(i) => i.len() == 0,
            None => false,
        })),
        (r matches Err(e) && e is MissingName) <==> (yaml_parses(text@) && (
        match yaml_string_field(text@, "id"@) {
            Some(i) => i.len() > 0,
            None => false,
        }) && yaml_string_field(text@, "name"@) is None),
        r matches Ok(q) ==> q@.id.len() > 0,
{
    match yaml_from_str(text) {
        Err(e) => Err(ParseError::Document(yaml_error_message(&e))),
        Ok(_) => {
            let id = yaml_field(text, "id");
            let name = yaml_field(text, "name");
            let details = yaml_field(text, "details");
            let parent = yaml_field(text, "parent");
            assert(opt_view(id) == yaml_string_field(text@, "id"@));
            assert(opt_view(name) == yaml_string_field(text@, "name"@));
            assert(opt_view(details) == yaml_string_field(text@, "details"@));
            assert(opt_view(parent) == yaml_string_field(text@, "parent"@));
            requirement_from_fields(id, name, details, parent)
        },
    }
}

/// The path ends in `.yml` and the dot does not begin the file name, so the
/// file truly carries that extension.
pub open spec fn yml_extension(s: Seq<char>) -> bool {
    s.len() >= 5 && s[s.len() - 4] == '.' && s[s.len() - 3] == 'y' && s[s.len() - 2] == 'm'
        && s[s.len() - 1] == 'l' && s[s.len() - 5] != '/'
}

/// Whether the requirements walk takes this file.
pub fn has_yml_extension(path: &str) -> (b: bool)
    ensures
        b == yml_extension(path@),
{
    let n = path.unicode_len();
    n >= 5 && path.get_char(n - 4) == '.' && path.get_char(n - 3) == 'y' && path.get_char(n - 2)
        == 'm' && path.get_char(n - 1) == 'l' && path.get_char(n - 5) != '/'
}

/// The parsed requirements, in the order their documents were loaded.
#[derive(Debug)]
pub struct RequirementCollection {
    pub requirements: Vec<Requirement>,
}

impl RequirementCollection {
    /// Every collected requirement has a non-empty id.
    pub open spec fn wf(&self) -> bool {
        forall|k: int|
            0 <= k < self.requirements@.len() ==> (#[trigger] self.requirements@[k])@.id.len() > 0
    }

    /// An empty collection.
    pub fn new() -> (c: RequirementCollection)
        ensures
            c.requirements@.len() == 0,
            c.wf(),
    {
        RequirementCollection { requirements: Vec::new() }
    }

    /// Appends one parsed requirement.
    pub fn add(&mut self, r: Requirement)
        requires
            old(self).wf(),
            r@.id.len() > 0,
        ensures
            final(self).wf(),
            final(self).requirements@ == old(self).requirements@.push(r),
    {
        self.requirements.push(r);
    }
}

/// There is an entry with this id.
pub open spec fn holds_id(reqs: Seq<ReqView>, id: Seq<char>) -> bool {
    exists|k: int| 0 <= k < reqs.len() && reqs[k].id == id
}

/// No two entries share an id.
pub open spec fn unique_ids(reqs: Seq<ReqView>) -> bool {
    forall|a: int, b: int| 0 <= a < b < reqs.len() ==> reqs[a].id != reqs[b].id
}

/// Every entry's id is non-empty.
pub open spec fn nonempty_ids(reqs: Seq<ReqView>) -> bool {
    forall|k: int| 0 <= k < reqs.len() ==> (#[trigger] reqs[k]).id.len() > 0
}

/// Inserting under an id that is present replaces that entry in place;
/// a new id goes to the end.
pub open spec fn upsert(reqs: Seq<ReqView>, r: ReqView) -> Seq<ReqView> {
    if holds_id(reqs, r.id) {
        reqs.update(choose|k: int| 0 <= k < reqs.len() && reqs[k].id == r.id, r)
    } else {
        reqs.push(r)
    }
}

/// The registry a list of documents builds, loaded in order: a later
/// document with a known id replaces the earlier entry.
pub open spec fn registry_of(docs: Seq<ReqView>) -> Seq<ReqView>
    decreases docs.len(),
{
    if docs.len() == 0 {
        seq![]
    } else {
        upsert(registry_of(docs.drop_last()), docs.last())
    }
}

/// The mapping from requirement id to requirement, read-only once built.
/// Entries keep the order in which their ids first appeared.
#[derive(Debug)]
pub struct Registry {
    items: Vec<Requirement>,
}

impl Registry {
    /// The entries, in order.
    pub closed spec fn reqs(&self) -> Seq<ReqView> {
        req_views(self.items@)
    }

    /// Ids are unique and non-empty.
    pub open spec fn wf(&self) -> bool {
        unique_ids(self.reqs()) && nonempty_ids(self.reqs())
    }

    /// An empty registry.
    pub fn new() -> (reg: Registry)
        ensures
            reg.reqs() == Seq::<ReqView>::empty(),
            reg.wf(),
    {
        let reg = Registry { items: Vec::new() };
        proof {
            assert(reg.reqs() =~= Seq::<ReqView>::empty());
        }
        reg
    }

    /// How many requirements are registered.
    pub fn len(&self) -> (n: usize)
        ensures
            n == self.reqs().len(),
    {
        self.items.len()
    }

    /// The entry at a position.
    pub fn get(&self, k: usize) -> (r: &Requirement)
        requires
            k < self.reqs().len(),
        ensures
            r@ == self.reqs()[k as int],
    {
        &self.items[k]
    }

    /// Whether an id is registered.
    pub fn contains_id(&self, id: &String) -> (b: bool)
        ensures
            b == holds_id(self.reqs(), id@),
    {
        let mut k: usize = 0;
        let n = self.items.len();
        while k < n
            invariant
                n == self.reqs().len(),
                k <= n,
                forall|j: int| 0 <= j < k ==> (#[trigger] self.reqs()[j]).id != id@,
            decreases n - k,
        {
            if self.items[k].id == *id {
                assert(self.reqs()[k as int].id == id@);
                return true;
            }
            k += 1;
        }
        false
    }

    /// Registers one requirement: an entry with the same id is replaced in
    /// place, a new id is appended.
    pub fn insert(&mut self, r: Requirement)
        requires
            old(self).wf(),
            r@.id.len() > 0,
        ensures
            final(self).wf(),
            final(self).reqs() == upsert(old(self).reqs(), r@),
    {
        let ghost orig = self.reqs();
        let ghost rv = r@;
        let n = self.items.len();
        let mut k: usize = 0;
        while k < n
            invariant
                self == old(self),
                self.wf(),
                orig == self.reqs(),
                rv == r@,
                rv.id.len() > 0,
                n == self.reqs().len(),
                k <= n,
                forall|j: int| 0 <= j < k ==> (#[trigger] self.reqs()[j]).id != rv.id,
            decreases n - k,
        {
            if self.items[k].id == r.id {
                proof {
                    assert(orig[k as int] == self.items@[k as int]@);
                    assert(orig[k as int].id == rv.id);
                    assert(holds_id(orig, rv.id));
                    let k0 = choose|j: int| 0 <= j < orig.len() && orig[j].id == rv.id;
                    if k0 != k as int {
                        assert(orig[k0].id == orig[k as int].id);
                        assert(false);
                    }
                }
                self.items[k] = r;
                proof {
                    assert(self.reqs() =~= orig.update(k as int, rv));
                    assert(upsert(orig, rv) == orig.update(k as int, rv));
                    assert(forall|j: int|
                        0 <= j < self.reqs().len() ==> (#[trigger] self.reqs()[j]).id
                            == orig[j].id);
                    assert(unique_ids(self.reqs()));
                    assert(nonempty_ids(self.reqs()));
                }
                return ;
            }
            k += 1;
        }
        proof {
            assert(!holds_id(orig, rv.id));
        }
        self.items.push(r);
        proof {
            assert(self.reqs() =~= orig.push(rv));
            assert(forall|j: int| 0 <= j < orig.len() ==> (#[trigger] self.reqs()[j]) == orig[j]);
            assert(unique_ids(self.reqs()));
            assert(nonempty_ids(self.reqs()));
        }
    }

    /// Builds the registry from parsed documents, in load order.
    pub fn from_collection(c: RequirementCollection) -> (reg: Registry)
        requires
            c.wf(),
        ensures
            reg.wf(),
            reg.reqs() == registry_of(req_views(c.requirements@)),
    {
        let ghost docs = req_views(c.requirements@);
        let mut reg = Registry::new();
        let mut i: usize = 0;
        proof {
            assert(docs.take(0) =~= Seq::<ReqView>::empty());
        }
        while i < c.requirements.len()
            invariant
                c.wf(),
                docs == req_views(c.requirements@),
                docs.len() == c.requirements@.len(),
                i <= docs.len(),
                reg.wf(),
                reg.reqs() == registry_of(docs.take(i as int)),
            decreases docs.len() - i,
        {
            let ghost prev = docs.take(i as int);
            let ghost step = docs.take(i + 1);
            proof {
                assert(step.drop_last() =~= prev);
                assert(step.last() == docs[i as int]);
            }
            let r = c.requirements[i].duplicate();
            reg.insert(r);
            i += 1;
        }
        assert(docs.take(i as int) =~= docs);
        reg
    }
}

} // verus!
