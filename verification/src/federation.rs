//! Resolution of federation metadata: given a schema reference, inspect the
//! element's attached directives and produce a [`FederationMetadata`] record,
//! an absent outcome when the element carries no federation directives, or a
//! [`FederationError`] when a recognized directive is malformed.
//!
//! Recognized directive vocabulary: `@key(fields: String)` and `@extends` on
//! types; `@external`, `@requires(fields: String)` and `@provides(fields:
//! String)` on fields. Any other directive is inert.

use vstd::prelude::*;

verus! {

use crate::model::{Argument, ArgumentValue, Directive, SchemaRef};
use vstd::std_specs::convert::IntoSpec;
use crate::selection::{spec_split_selection, split_selection, selection_well_formed};

/// Failure of federation metadata resolution. "Not federated" is not an
/// error; it is the absent success outcome.
#[derive(Clone, Copy, Debug, PartialEq, Eq)]
pub enum FederationError {
    /// A recognized directive is present but its `fields` argument is
    /// missing, is not a string, or holds a selection set whose braces do
    /// not balance. Never silently coerced to an empty field set.
    MalformedDirective,
}

/// The mathematical content of a [`FederationMetadata`] record: every
/// string replaced by its character sequence.
pub ghost struct MetadataView {
    pub owning_service: Option<Seq<char>>,
    pub key_fields: Seq<Seq<char>>,
    pub is_external: bool,
    pub requires_fields: Seq<Seq<char>>,
    pub provides_fields: Seq<Seq<char>>,
    pub is_extension: bool,
    pub field_level: bool,
}

impl MetadataView {
    /// A value type is a type-level element with no key and no extension
    /// marker: shared by value, with no identity across services.
    pub open spec fn spec_is_value_type(self) -> bool {
        !self.field_level && self.key_fields.len() == 0 && !self.is_extension
    }
}

/// The federation-relevant facts about exactly one schema element,
/// produced fresh per resolution call.
#[derive(Debug, PartialEq, Eq)]
pub struct FederationMetadata {
    /// Name of the subgraph service that declares this element: for a
    /// type, its own declaring service; for a field, inherited from the
    /// parent type. Absent when the declaring service is unknown.
    pub owning_service: Option<String>,
    /// The raw selection string of each `@key` directive, in declaration
    /// order, duplicates preserved; empty for field-level elements and for
    /// types that declare no key.
    pub key_fields: Vec<String>,
    /// Whether the element is a field marked `@external`.
    pub is_external: bool,
    /// Top-level items of every `@requires` selection set, in order of
    /// appearance; empty for type-level elements.
    pub requires_fields: Vec<String>,
    /// Top-level items of every `@provides` selection set, in order of
    /// appearance; empty for type-level elements.
    pub provides_fields: Vec<String>,
    /// Whether the element is a type marked `@extends`.
    pub is_extension: bool,
    /// Whether the element is a field definition rather than a type.
    pub field_level: bool,
}

impl View for FederationMetadata {
    type V = MetadataView;

    open spec fn view(&self) -> MetadataView {
        MetadataView {
            owning_service: self.owning_service.deep_view(),
            key_fields: self.key_fields.deep_view(),
            is_external: self.is_external,
            requires_fields: self.requires_fields.deep_view(),
            provides_fields: self.provides_fields.deep_view(),
            is_extension: self.is_extension,
            field_level: self.field_level,
        }
    }
}

impl FederationMetadata {
    /// True when this record describes a value type: a type-level element
    /// with no key fields and no extension marker.
    pub fn is_value_type(&self) -> (r: bool)
        ensures
            r == self@.spec_is_value_type(),
    {
        !self.field_level && self.key_fields.len() == 0 && !self.is_extension
    }
}

/// Whether some directive in `ds` bears the name `n`.
pub open spec fn has_directive(ds: Seq<Directive>, n: Seq<char>) -> bool {
    exists|k: int| 0 <= k < ds.len() && (#[trigger] ds[k]).name@ == n
}

/// A type-level element is federated when it declares a key or extends a
/// type of another service.
pub open spec fn type_federated(ds: Seq<Directive>) -> bool {
    has_directive(ds, "key"@) || has_directive(ds, "extends"@)
}

/// A field-level element is federated when it is external, requires
/// fields, or provides fields.
pub open spec fn field_federated(ds: Seq<Directive>) -> bool {
    has_directive(ds, "external"@) || has_directive(ds, "requires"@) || has_directive(
        ds,
        "provides"@,
    )
}

/// The value of the first argument named `fields`, if any.
pub open spec fn spec_fields_argument(args: Seq<Argument>) -> Option<ArgumentValue>
    decreases args.len(),
{
    if args.len() == 0 {
        None
    } else if args[0].name@ == "fields"@ {
        Some(args[0].value)
    } else {
        spec_fields_argument(args.drop_first())
    }
}

/// The selection string of a directive: the string value of its `fields`
/// argument, or `None` when that argument is missing or not a string.
pub open spec fn directive_selection(d: Directive) -> Option<Seq<char>> {
    match spec_fields_argument(d.arguments@) {
        Some(ArgumentValue::Text(s)) => Some(s@),
        _ => None,
    }
}

/// A directive named `n` is acceptable when its selection string is
/// present and well formed; a directive with any other name is inert.
pub open spec fn directive_ok(d: Directive, n: Seq<char>) -> bool {
    d.name@ == n ==> (directive_selection(d) matches Some(s) && selection_well_formed(s))
}

/// The raw selection string of every `@key` directive of `ds`, in
/// declaration order, or `None` when some key directive is malformed.
pub open spec fn collect_keys(ds: Seq<Directive>) -> Option<Seq<Seq<char>>>
    decreases ds.len(),
{
    if ds.len() == 0 {
        Some(Seq::<Seq<char>>::empty())
    } else {
        match collect_keys(ds.drop_last()) {
            None => None,
            Some(pre) => {
                let d = ds.last();
                if d.name@ == "key"@ {
                    match directive_selection(d) {
                        Some(s) => if selection_well_formed(s) {
                            Some(pre.push(s))
                        } else {
                            None
                        },
                        None => None,
                    }
                } else {
                    Some(pre)
                }
            },
        }
    }
}

/// The concatenated top-level selection items of every directive of `ds`
/// named `n`, in order of appearance, or `None` when one of those
/// directives is malformed.
pub open spec fn collect_fields(ds: Seq<Directive>, n: Seq<char>) -> Option<Seq<Seq<char>>>
    decreases ds.len(),
{
    if ds.len() == 0 {
        Some(Seq::<Seq<char>>::empty())
    } else {
        match collect_fields(ds.drop_last(), n) {
            None => None,
            Some(pre) => {
                let d = ds.last();
                if d.name@ == n {
                    match directive_selection(d) {
                        Some(s) => match spec_split_selection(s) {
                            Some(items) => Some(pre + items),
                            None => None,
                        },
                        None => None,
                    }
                } else {
                    Some(pre)
                }
            },
        }
    }
}

/// What resolution returns for a type-level element with directives `ds`
/// declared by `service`.
pub open spec fn resolve_type_spec(ds: Seq<Directive>, service: Option<Seq<char>>) -> Result<
    Option<MetadataView>,
    FederationError,
> {
    if !type_federated(ds) {
        Ok(None)
    } else {
        match collect_keys(ds) {
            None => Err(FederationError::MalformedDirective),
            Some(keys) => Ok(
                Some(
                    MetadataView {
                        owning_service: service,
                        key_fields: keys,
                        is_external: false,
                        requires_fields: Seq::<Seq<char>>::empty(),
                        provides_fields: Seq::<Seq<char>>::empty(),
                        is_extension: has_directive(ds, "extends"@),
                        field_level: false,
                    },
                ),
            ),
        }
    }
}

/// What resolution returns for a field with directives `ds` whose parent
/// type is declared by `parent_service`.
pub open spec fn resolve_field_spec(ds: Seq<Directive>, parent_service: Option<Seq<char>>) -> Result<
    Option<MetadataView>,
    FederationError,
> {
    if !field_federated(ds) {
        Ok(None)
    } else {
        match (collect_fields(ds, "requires"@), collect_fields(ds, "provides"@)) {
            (Some(req), Some(prov)) => Ok(
                Some(
                    MetadataView {
                        owning_service: parent_service,
                        key_fields: Seq::<Seq<char>>::empty(),
                        is_external: has_directive(ds, "external"@),
                        requires_fields: req,
                        provides_fields: prov,
                        is_extension: false,
                        field_level: true,
                    },
                ),
            ),
            _ => Err(FederationError::MalformedDirective),
        }
    }
}

/// What resolution returns for any schema reference.
pub open spec fn resolve_spec(r: SchemaRef) -> Result<Option<MetadataView>, FederationError> {
    match r {
        SchemaRef::FieldDef(f) => resolve_field_spec(f.directives@, f.parent_service.deep_view()),
        SchemaRef::TypeDef(t) => resolve_type_spec(t.directives@, t.service.deep_view()),
        SchemaRef::ObjType(o) => resolve_type_spec(o.directives@, o.service.deep_view()),
    }
}

/// The mathematical content of a resolution result.
pub open spec fn result_view(r: Result<Option<FederationMetadata>, FederationError>) -> Result<
    Option<MetadataView>,
    FederationError,
> {
    match r {
        Ok(Some(m)) => Ok(Some(m@)),
        Ok(None) => Ok(None),
        Err(e) => Err(e),
    }
}

/// Character-by-character string equality.
fn str_eq(a: &str, b: &str) -> (r: bool)
    ensures
        r == (a@ == b@),
{
    let na = a.unicode_len();
    let nb = b.unicode_len();
    if na != nb {
        return false;
    }
    let mut i: usize = 0;
    while i < na
        invariant
            na == a@.len(),
            na == b@.len(),
            i <= na,
            forall|k: int| 0 <= k < i ==> a@[k] == b@[k],
        decreases na - i,
    {
        if a.get_char(i) != b.get_char(i) {
            return false;
        }
        i = i + 1;
    }
    proof {
        assert(a@ =~= b@);
    }
    true
}

/// Whether directive `d` bears the name `n`.
fn directive_named(d: &Directive, n: &str) -> (r: bool)
    ensures
        r == (d.name@ == n@),
{
    str_eq(d.name.as_str(), n)
}

/// Whether some directive in `ds` bears the name `n`.
fn has_directive_exec(ds: &Vec<Directive>, n: &str) -> (r: bool)
    ensures
        r == has_directive(ds@, n@),
{
    let mut i: usize = 0;
    while i < ds.len()
        invariant
            i <= ds@.len(),
            forall|k: int| 0 <= k < i ==> (#[trigger] ds@[k]).name@ != n@,
        decreases ds@.len() - i,
    {
        if directive_named(&ds[i], n) {
            return true;
        }
        i = i + 1;
    }
    false
}

/// The value of the first argument of `args` named `fields`, if any.
fn fields_argument<'a>(args: &'a Vec<Argument>) -> (r: Option<&'a ArgumentValue>)
    ensures
        match r {
            Some(v) => spec_fields_argument(args@) == Some(*v),
            None => spec_fields_argument(args@) is None,
        },
{
    let mut i: usize = 0;
    proof {
        assert(args@.skip(0) =~= args@);
    }
    while i < args.len()
        invariant
            i <= args@.len(),
            spec_fields_argument(args@.skip(i as int)) == spec_fields_argument(args@),
        decreases args@.len() - i,
    {
        proof {
            assert(args@.skip(i as int)[0] == args@[i as int]);
            assert(args@.skip(i as int).drop_first() =~= args@.skip(i as int + 1));
        }
        if str_eq(args[i].name.as_str(), "fields") {
            return Some(&args[i].value);
        }
        i = i + 1;
    }
    proof {
        assert(args@.skip(args@.len() as int).len() == 0);
    }
    None
}

/// The selection string of directive `d`: the string value of its
/// `fields` argument, or `None` when that argument is missing or not a
/// string.
fn directive_selection_exec<'a>(d: &'a Directive) -> (r: Option<&'a String>)
    ensures
        match r {
            Some(s) => directive_selection(*d) == Some(s@),
            None => directive_selection(*d) is None,
        },
{
    match fields_argument(&d.arguments) {
        Some(v) => match v {
            ArgumentValue::Text(s) => Some(s),
            ArgumentValue::NonText => None,
        },
        None => None,
    }
}

/// Clones an optional service name; the views agree.
fn clone_opt_string(o: &Option<String>) -> (r: Option<String>)
    ensures
        r.deep_view() == o.deep_view(),
{
    match o {
        Some(s) => Some(s.clone()),
        None => None,
    }
}

/// One malformed directive named `n` anywhere in `ds` poisons the whole
/// collection: no field set is produced for `n`.
pub proof fn lemma_bad_directive_collects_none(ds: Seq<Directive>, n: Seq<char>, k: int)
    requires
        0 <= k < ds.len(),
        ds[k].name@ == n,
        !directive_ok(ds[k], n),
    ensures
        collect_fields(ds, n) is None,
    decreases ds.len(),
{
    if k == ds.len() - 1 {
    } else {
        lemma_bad_directive_collects_none(ds.drop_last(), n, k);
    }
}

/// One malformed key directive anywhere in `ds` poisons the key list.
pub proof fn lemma_bad_key_collects_none(ds: Seq<Directive>, k: int)
    requires
        0 <= k < ds.len(),
        ds[k].name@ == "key"@,
        !directive_ok(ds[k], "key"@),
    ensures
        collect_keys(ds) is None,
    decreases ds.len(),
{
    if k == ds.len() - 1 {
    } else {
        lemma_bad_key_collects_none(ds.drop_last(), k);
    }
}

/// A type that declares at least one key directive never gets an empty
/// key list: if the keys collect at all, one raw selection string per key
/// directive is kept.
pub proof fn lemma_key_list_nonempty(ds: Seq<Directive>, keys: Seq<Seq<char>>, k: int)
    requires
        collect_keys(ds) == Some(keys),
        0 <= k < ds.len(),
        ds[k].name@ == "key"@,
    ensures
        keys.len() > 0,
    decreases ds.len(),
{
    if k < ds.len() - 1 {
        if ds.last().name@ == "key"@ {
        } else {
            lemma_key_list_nonempty(ds.drop_last(), keys, k);
        }
    }
}

/// An element that carries none of the recognized federation directives
/// resolves to the absent outcome: never an error, and never a record of
/// all-default fields, so absence stays distinguishable from "federated
/// with no data".
pub proof fn lemma_unannotated_is_absent(r: SchemaRef)
    requires
        match r {
            SchemaRef::FieldDef(f) => !field_federated(f.directives@),
            SchemaRef::TypeDef(t) => !type_federated(t.directives@),
            SchemaRef::ObjType(o) => !type_federated(o.directives@),
        },
    ensures
        resolve_spec(r) == Ok::<Option<MetadataView>, FederationError>(None),
{
}

/// A type that declares a key directive is an entity: its resolved
/// metadata keeps at least that key and is never classified as a value
/// type.
pub proof fn lemma_keyed_type_is_entity(
    ds: Seq<Directive>,
    service: Option<Seq<char>>,
    m: MetadataView,
    k: int,
)
    requires
        0 <= k < ds.len(),
        ds[k].name@ == "key"@,
        resolve_type_spec(ds, service) == Ok::<Option<MetadataView>, FederationError>(Some(m)),
    ensures
        m.key_fields.len() > 0,
        !m.spec_is_value_type(),
{
    assert(has_directive(ds, "key"@));
    lemma_key_list_nonempty(ds, m.key_fields, k);
}

/// An external field's metadata records the external marker and takes its
/// owning service from the declaring (extending) parent type, not from
/// the base type's original owner.
pub proof fn lemma_external_field_ownership(
    ds: Seq<Directive>,
    parent_service: Option<Seq<char>>,
    m: MetadataView,
    k: int,
)
    requires
        0 <= k < ds.len(),
        ds[k].name@ == "external"@,
        resolve_field_spec(ds, parent_service) == Ok::<Option<MetadataView>, FederationError>(
            Some(m),
        ),
    ensures
        m.is_external,
        m.owning_service == parent_service,
{
    assert(has_directive(ds, "external"@));
}

/// Resolution is a pure function of the referenced element: two calls on
/// the same reference, with no intervening change of the schema, yield
/// field-for-field equal results.
pub proof fn lemma_resolution_idempotent(
    r: SchemaRef,
    r1: Result<Option<FederationMetadata>, FederationError>,
    r2: Result<Option<FederationMetadata>, FederationError>,
)
    requires
        result_view(r1) == resolve_spec(r),
        result_view(r2) == resolve_spec(r),
    ensures
        result_view(r1) == result_view(r2),
{
}

/// A key directive whose `fields` argument is missing, not a string, or
/// an unbalanced selection makes resolution fail with
/// `MalformedDirective`; it never yields an empty key list.
pub proof fn lemma_malformed_key_is_error(ds: Seq<Directive>, service: Option<Seq<char>>, k: int)
    requires
        0 <= k < ds.len(),
        ds[k].name@ == "key"@,
        !directive_ok(ds[k], "key"@),
    ensures
        resolve_type_spec(ds, service) == Err::<Option<MetadataView>, FederationError>(
            FederationError::MalformedDirective,
        ),
{
    lemma_bad_key_collects_none(ds, k);
    assert(has_directive(ds, "key"@));
}

/// Field-level metadata never carries type-level facts: no key fields,
/// no extension marker, and it is never classified as a value type.
pub proof fn lemma_field_metadata_shape(
    ds: Seq<Directive>,
    parent_service: Option<Seq<char>>,
    m: MetadataView,
)
    requires
        resolve_field_spec(ds, parent_service) == Ok::<Option<MetadataView>, FederationError>(
            Some(m),
        ),
    ensures
        m.field_level,
        !m.is_extension,
        m.key_fields.len() == 0,
        !m.spec_is_value_type(),
{
}

/// Type-level metadata never carries field-level facts: it is not
/// external and holds no requires or provides field sets.
pub proof fn lemma_type_metadata_shape(
    ds: Seq<Directive>,
    service: Option<Seq<char>>,
    m: MetadataView,
)
    requires
        resolve_type_spec(ds, service) == Ok::<Option<MetadataView>, FederationError>(Some(m)),
    ensures
        !m.field_level,
        !m.is_external,
        m.requires_fields.len() == 0,
        m.provides_fields.len() == 0,
        m.owning_service == service,
{
}

/// Resolves a type-level element: directives `ds`, declaring service
/// `service`.
fn resolve_type_meta(ds: &Vec<Directive>, service: &Option<String>) -> (r: Result<
    Option<FederationMetadata>,
    FederationError,
>)
    ensures
        result_view(r) == resolve_type_spec(ds@, service.deep_view()),
{
    let federated = has_directive_exec(ds, "key") || has_directive_exec(ds, "extends");
    if !federated {
        return Ok(None);
    }
    let mut keys: Vec<String> = Vec::new();
    let mut idx: usize = 0;
    proof {
        assert(ds@.take(0) =~= Seq::<Directive>::empty());
        assert(keys.deep_view() =~= Seq::<Seq<char>>::empty());
    }
    while idx < ds.len()
        invariant
            idx <= ds@.len(),
            collect_keys(ds@.take(idx as int)) == Some(keys.deep_view()),
        decreases ds@.len() - idx,
    {
        let ghost pre = ds@.take(idx as int);
        proof {
            assert(ds@.take(idx as int + 1).drop_last() =~= pre);
            assert(ds@.take(idx as int + 1).last() == ds@[idx as int]);
        }
        let d = &ds[idx];
        if directive_named(d, "key") {
            match directive_selection_exec(d) {
                Some(s) => {
                    match split_selection(s.as_str()) {
                        Some(_) => {
                            let ghost dv = keys.deep_view();
                            keys.push(s.clone());
                            proof {
                                assert(keys.deep_view() =~= dv.push(s@));
                            }
                        },
                        None => {
                            proof {
                                lemma_bad_key_collects_none(ds@, idx as int);
                            }
                            return Err(FederationError::MalformedDirective);
                        },
                    }
                },
                None => {
                    proof {
                        lemma_bad_key_collects_none(ds@, idx as int);
                    }
                    return Err(FederationError::MalformedDirective);
                },
            }
        }
        idx = idx + 1;
    }
    proof {
        assert(ds@.take(ds@.len() as int) =~= ds@);
    }
    let is_extension = has_directive_exec(ds, "extends");
    let empty_req: Vec<String> = Vec::new();
    let empty_prov: Vec<String> = Vec::new();
    proof {
        assert(empty_req.deep_view() =~= Seq::<Seq<char>>::empty());
        assert(empty_prov.deep_view() =~= Seq::<Seq<char>>::empty());
    }
    Ok(
        Some(
            FederationMetadata {
                owning_service: clone_opt_string(service),
                key_fields: keys,
                is_external: false,
                requires_fields: empty_req,
                provides_fields: empty_prov,
                is_extension,
                field_level: false,
            },
        ),
    )
}

/// Resolves a field definition: directives `ds`, parent type declared by
/// `parent_service`.
fn resolve_field_meta(ds: &Vec<Directive>, parent_service: &Option<String>) -> (r: Result<
    Option<FederationMetadata>,
    FederationError,
>)
    ensures
        result_view(r) == resolve_field_spec(ds@, parent_service.deep_view()),
{
    let federated = has_directive_exec(ds, "external") || has_directive_exec(ds, "requires")
        || has_directive_exec(ds, "provides");
    if !federated {
        return Ok(None);
    }
    let mut req: Vec<String> = Vec::new();
    let mut prov: Vec<String> = Vec::new();
    let mut idx: usize = 0;
    proof {
        assert(ds@.take(0) =~= Seq::<Directive>::empty());
        assert(req.deep_view() =~= Seq::<Seq<char>>::empty());
        assert(prov.deep_view() =~= Seq::<Seq<char>>::empty());
        reveal_strlit("requires");
        reveal_strlit("provides");
        assert("requires"@ != "provides"@) by {
            assert("requires"@[0] == 'r');
            assert("provides"@[0] == 'p');
        }
    }
    while idx < ds.len()
        invariant
            idx <= ds@.len(),
            collect_fields(ds@.take(idx as int), "requires"@) == Some(req.deep_view()),
            collect_fields(ds@.take(idx as int), "provides"@) == Some(prov.deep_view()),
        decreases ds@.len() - idx,
    {
        let ghost pre = ds@.take(idx as int);
        proof {
            assert(ds@.take(idx as int + 1).drop_last() =~= pre);
            assert(ds@.take(idx as int + 1).last() == ds@[idx as int]);
            reveal_strlit("requires");
            reveal_strlit("provides");
            assert("requires"@ != "provides"@) by {
                assert("requires"@[0] == 'r');
                assert("provides"@[0] == 'p');
            }
        }
        let d = &ds[idx];
        if directive_named(d, "requires") {
            match directive_selection_exec(d) {
                Some(s) => {
                    match split_selection(s.as_str()) {
                        Some(mut items) => {
                            let ghost rdv = req.deep_view();
                            let ghost idv = items.deep_view();
                            req.append(&mut items);
                            proof {
                                assert(req.deep_view() =~= rdv + idv);
                            }
                        },
                        None => {
                            proof {
                                lemma_bad_directive_collects_none(ds@, "requires"@, idx as int);
                            }
                            return Err(FederationError::MalformedDirective);
                        },
                    }
                },
                None => {
                    proof {
                        lemma_bad_directive_collects_none(ds@, "requires"@, idx as int);
                    }
                    return Err(FederationError::MalformedDirective);
                },
            }
        } else if directive_named(d, "provides") {
            match directive_selection_exec(d) {
                Some(s) => {
                    match split_selection(s.as_str()) {
                        Some(mut items) => {
                            let ghost pdv = prov.deep_view();
                            let ghost idv = items.deep_view();
                            prov.append(&mut items);
                            proof {
                                assert(prov.deep_view() =~= pdv + idv);
                            }
                        },
                        None => {
                            proof {
                                lemma_bad_directive_collects_none(ds@, "provides"@, idx as int);
                            }
                            return Err(FederationError::MalformedDirective);
                        },
                    }
                },
                None => {
                    proof {
                        lemma_bad_directive_collects_none(ds@, "provides"@, idx as int);
                    }
                    return Err(FederationError::MalformedDirective);
                },
            }
        }
        idx = idx + 1;
    }
    proof {
        assert(ds@.take(ds@.len() as int) =~= ds@);
    }
    let is_external = has_directive_exec(ds, "external");
    let empty_keys: Vec<String> = Vec::new();
    proof {
        assert(empty_keys.deep_view() =~= Seq::<Seq<char>>::empty());
    }
    Ok(
        Some(
            FederationMetadata {
                owning_service: clone_opt_string(parent_service),
                key_fields: empty_keys,
                is_external,
                requires_fields: req,
                provides_fields: prov,
                is_extension: false,
                field_level: true,
            },
        ),
    )
}

/// Resolves the federation metadata of any schema element. Returns
/// `Ok(None)` when the element carries none of the recognized federation
/// directives, `Ok(Some(..))` with the element's metadata otherwise, and
/// `Err(MalformedDirective)` when a recognized directive's `fields`
/// argument is missing, not a string, or unbalanced.
pub fn resolve<'q>(reference: SchemaRef<'q>) -> (r: Result<
    Option<FederationMetadata>,
    FederationError,
>)
    ensures
        result_view(r) == resolve_spec(reference),
{
    match reference {
        SchemaRef::FieldDef(f) => resolve_field_meta(&f.directives, &f.parent_service),
        SchemaRef::TypeDef(t) => resolve_type_meta(&t.directives, &t.service),
        SchemaRef::ObjType(o) => resolve_type_meta(&o.directives, &o.service),
    }
}

/// Resolves the federation metadata of anything coercible to a schema
/// reference, so a caller can pass a borrowed field definition, type
/// definition or object type definition directly. For the crate's own
/// coercions the result equals [`resolve`] on the coerced reference.
pub fn get_federation_metadata<'q, T: Into<SchemaRef<'q>>>(handle: T) -> (r: Result<
    Option<FederationMetadata>,
    FederationError,
>)
    ensures
        T::obeys_into_spec() ==> result_view(r) == resolve_spec(handle.into_spec()),
{
    let reference: SchemaRef<'q> = handle.into();
    resolve(reference)
}

} // verus!
