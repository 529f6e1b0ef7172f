//! The tables of a running program's properties: one for each component
//! that has properties, with each property's value flattened into rows.

use crate::flatten::{flatten, map_value_and_type, ValueMappingModel};
use crate::runtime_properties;
use crate::text::{clone_strings, strings_equal};
use crate::value::{clone_values, values_equal, PropertyValue, PropertyValueModel};
use vstd::prelude::*;

verus! {

/// One property of a running component, with its value as a table.
#[derive(Debug, PartialEq, Eq)]
pub struct RuntimeProperty {
    pub name: String,
    pub has_getter: bool,
    pub has_setter: bool,
    /// Whether the value is an array, with one row for each element.
    pub is_array: bool,
    /// Whether the value was too complex for a table, and stands as JSON.
    pub prefer_json: bool,
    /// The column names.
    pub header: Vec<String>,
    /// The rows of values under the header.
    pub array_values: Vec<Vec<PropertyValue>>,
}

/// What a runtime property holds.
pub struct RuntimePropertyModel {
    pub name: Seq<char>,
    pub has_getter: bool,
    pub has_setter: bool,
    pub is_array: bool,
    pub prefer_json: bool,
    pub header: Seq<Seq<char>>,
    pub array_values: Seq<Seq<PropertyValueModel>>,
}

impl RuntimePropertyModel {
    /// What holds of every runtime property: each row has one value for
    /// each column; a value that is no array has exactly one row; and a
    /// value that stands as JSON has one column without a name, which holds
    /// one value of source text.
    pub open spec fn well_formed(self) -> bool {
        (ValueMappingModel {
            name_prefix: Seq::empty(),
            is_too_complex: self.prefer_json,
            is_array: self.is_array,
            header: self.header,
            array_values: self.array_values,
        }).well_formed()
    }
}

impl DeepView for RuntimeProperty {
    type V = RuntimePropertyModel;

    open spec fn deep_view(&self) -> RuntimePropertyModel {
        RuntimePropertyModel {
            name: self.name@,
            has_getter: self.has_getter,
            has_setter: self.has_setter,
            is_array: self.is_array,
            prefer_json: self.prefer_json,
            header: self.header.deep_view(),
            array_values: self.array_values.deep_view(),
        }
    }
}

impl View for RuntimeProperty {
    type V = RuntimePropertyModel;

    open spec fn view(&self) -> RuntimePropertyModel {
        self.deep_view()
    }
}

/// Copies a table of values, row by row and value by value.
pub fn duplicate_runtime_property_value_table(model: &Vec<Vec<PropertyValue>>) -> (duplicate: Vec<
    Vec<PropertyValue>,
>)
    ensures
        duplicate.deep_view() == model.deep_view(),
{
    let mut duplicate: Vec<Vec<PropertyValue>> = Vec::new();
    let mut i: usize = 0;
    while i < model.len()
        invariant
            i <= model.len(),
            duplicate.len() == i,
            forall|j: int|
                0 <= j < i ==> (#[trigger] duplicate@[j]).deep_view() == model@[j].deep_view(),
        decreases model.len() - i,
    {
        duplicate.push(clone_values(&model[i]));
        i += 1;
    }
    assert(duplicate.deep_view() =~= model.deep_view());
    duplicate
}

fn tables_equal(a: &Vec<Vec<PropertyValue>>, b: &Vec<Vec<PropertyValue>>) -> (r: bool)
    ensures
        r == (a.deep_view() == b.deep_view()),
{
    if a.len() != b.len() {
        assert(a.deep_view().len() != b.deep_view().len());
        return false;
    }
    let mut i: usize = 0;
    while i < a.len()
        invariant
            i <= a.len(),
            a.len() == b.len(),
            forall|j: int| 0 <= j < i ==> (#[trigger] a@[j]).deep_view() == b@[j].deep_view(),
        decreases a.len() - i,
    {
        if !values_equal(&a[i], &b[i]) {
            assert(a.deep_view()[i as int] != b.deep_view()[i as int]);
            return false;
        }
        i += 1;
    }
    assert(a.deep_view() =~= b.deep_view());
    true
}

impl Clone for RuntimeProperty {
    fn clone(&self) -> (r: RuntimeProperty)
        ensures
            r@ == self@,
    {
        RuntimeProperty {
            name: self.name.clone(),
            has_getter: self.has_getter,
            has_setter: self.has_setter,
            is_array: self.is_array,
            prefer_json: self.prefer_json,
            header: clone_strings(&self.header),
            array_values: duplicate_runtime_property_value_table(&self.array_values),
        }
    }
}

/// Tells whether two properties show the same: the same name, the same
/// flags, the same header, and the same values in every row.
pub fn is_semantic_equal(o: &RuntimeProperty, n: &RuntimeProperty) -> (r: bool)
    ensures
        r == (o@ == n@),
{
    if o.name != n.name || o.has_getter != n.has_getter || o.has_setter != n.has_setter
        || o.is_array != n.is_array || o.prefer_json != n.prefer_json {
        return false;
    }
    if !strings_equal(&o.header, &n.header) {
        return false;
    }
    tables_equal(&o.array_values, &n.array_values)
}

/// The table of one property of a running program: its value, flattened
/// under no name. Nothing for a callback or a function.
pub open spec fn runtime_property_of(rp: runtime_properties::RuntimeProperty) -> Option<
    RuntimePropertyModel,
> {
    if rp.is_property {
        let flat = flatten(rp.ty, rp.value, Seq::empty());
        Some(
            RuntimePropertyModel {
                name: rp.name@,
                has_getter: rp.has_getter,
                has_setter: rp.has_setter,
                is_array: flat.is_array,
                prefer_json: flat.is_too_complex,
                header: flat.header,
                array_values: flat.array_values,
            },
        )
    } else {
        None
    }
}

/// Makes the table of one property of a running program.
pub fn map_runtime_property(rp: &runtime_properties::RuntimeProperty) -> (r: Option<RuntimeProperty>)
    ensures
        r.deep_view() == runtime_property_of(*rp),
        r matches Some(p) ==> p@.well_formed(),
{
    if !rp.is_property {
        return None;
    }
    let has_getter = rp.has_getter;
    let has_setter = rp.has_setter;
    let prefix = String::new();
    let mapping = map_value_and_type(&rp.ty, rp.value.as_ref(), &prefix);
    Some(
        RuntimeProperty {
            name: rp.name.clone(),
            has_getter,
            has_setter,
            prefer_json: mapping.is_too_complex,
            is_array: mapping.is_array,
            header: mapping.header,
            array_values: mapping.array_values,
        },
    )
}

/// One component of a running program, with its properties.
#[derive(Debug, PartialEq, Eq)]
pub struct RuntimeComponent {
    pub component_name: String,
    pub component_id: String,
    pub properties: Vec<RuntimeProperty>,
}

/// What a runtime component holds.
pub struct RuntimeComponentModel {
    pub component_name: Seq<char>,
    pub component_id: Seq<char>,
    pub properties: Seq<RuntimePropertyModel>,
}

impl DeepView for RuntimeComponent {
    type V = RuntimeComponentModel;

    open spec fn deep_view(&self) -> RuntimeComponentModel {
        RuntimeComponentModel {
            component_name: self.component_name@,
            component_id: self.component_id@,
            properties: self.properties.deep_view(),
        }
    }
}

impl View for RuntimeComponent {
    type V = RuntimeComponentModel;

    open spec fn view(&self) -> RuntimeComponentModel {
        self.deep_view()
    }
}

/// The tables of those of the first `count` entries that are properties,
/// in order.
pub open spec fn runtime_properties_of(
    properties: Seq<runtime_properties::RuntimeProperty>,
    count: int,
) -> Seq<RuntimePropertyModel>
    decreases count,
{
    if count <= 0 {
        Seq::empty()
    } else {
        match runtime_property_of(properties[count - 1]) {
            Some(p) => runtime_properties_of(properties, count - 1).push(p),
            None => runtime_properties_of(properties, count - 1),
        }
    }
}

/// The component with the given name and id and the tables of the given
/// properties; nothing where none of them is a property.
pub open spec fn component_of(
    component_name: Seq<char>,
    component_id: Seq<char>,
    properties: Seq<runtime_properties::RuntimeProperty>,
) -> Option<RuntimeComponentModel> {
    let tables = runtime_properties_of(properties, properties.len() as int);
    if tables.len() == 0 {
        None
    } else {
        Some(RuntimeComponentModel { component_name, component_id, properties: tables })
    }
}

/// Makes the component with the given name and id from the properties of a
/// running component.
pub fn fill_component(
    component_name: String,
    component_id: String,
    properties: &Vec<runtime_properties::RuntimeProperty>,
) -> (r: Option<RuntimeComponent>)
    ensures
        r.deep_view() == component_of(component_name@, component_id@, properties@),
{
    let mut tables: Vec<RuntimeProperty> = Vec::new();
    let mut i: usize = 0;
    assert(tables.deep_view() =~= Seq::empty());
    while i < properties.len()
        invariant
            i <= properties.len(),
            tables.deep_view() == runtime_properties_of(properties@, i as int),
        decreases properties.len() - i,
    {
        let ghost before = tables.deep_view();
        match map_runtime_property(&properties[i]) {
            Some(p) => {
                tables.push(p);
                assert(tables.deep_view() =~= before.push(p@));
            },
            None => {},
        }
        i += 1;
    }
    if tables.len() == 0 {
        None
    } else {
        Some(RuntimeComponent { component_name, component_id, properties: tables })
    }
}

/// The properties of the main component: those of the first entry from
/// `from` on that is for it.
pub open spec fn main_properties(
    entries: Seq<(runtime_properties::RuntimeComponent, Vec<runtime_properties::RuntimeProperty>)>,
    from: int,
) -> Option<Seq<runtime_properties::RuntimeProperty>>
    decreases entries.len() - from,
{
    if from < 0 || from >= entries.len() {
        None
    } else if entries[from].0 is Main {
        Some(entries[from].1@)
    } else {
        main_properties(entries, from + 1)
    }
}

/// The main component, under the name `<MAIN>` and without an id, where
/// there is an entry for it that has properties.
pub open spec fn main_component(
    entries: Seq<(runtime_properties::RuntimeComponent, Vec<runtime_properties::RuntimeProperty>)>,
) -> Option<RuntimeComponentModel> {
    match main_properties(entries, 0) {
        Some(properties) => component_of("<MAIN>"@, Seq::empty(), properties),
        None => None,
    }
}

/// The globals among the first `count` entries that have properties, each
/// under its own name as name and id, in the order of the entries.
pub open spec fn global_components(
    entries: Seq<(runtime_properties::RuntimeComponent, Vec<runtime_properties::RuntimeProperty>)>,
    count: int,
) -> Seq<RuntimeComponentModel>
    decreases count,
{
    if count <= 0 {
        Seq::empty()
    } else {
        let before = global_components(entries, count - 1);
        match entries[count - 1].0 {
            runtime_properties::RuntimeComponent::Global(name) => match component_of(
                name@,
                name@,
                entries[count - 1].1@,
            ) {
                Some(c) => before.push(c),
                None => before,
            },
            runtime_properties::RuntimeComponent::Main => before,
        }
    }
}

/// The components of a running program: the main component first, then
/// the globals in the order of their entries, and none that has no
/// property.
pub open spec fn runtime_components_of(
    entries: Seq<(runtime_properties::RuntimeComponent, Vec<runtime_properties::RuntimeProperty>)>,
) -> Seq<RuntimeComponentModel> {
    match main_component(entries) {
        Some(main) => seq![main] + global_components(entries, entries.len() as int),
        None => global_components(entries, entries.len() as int),
    }
}

fn find_main(
    entries: &Vec<(runtime_properties::RuntimeComponent, Vec<runtime_properties::RuntimeProperty>)>,
) -> (r: Option<usize>)
    ensures
        r matches Some(i) ==> i < entries.len() && main_properties(entries@, 0) == Some(
            entries@[i as int].1@,
        ),
        r is None ==> main_properties(entries@, 0) is None,
{
    let mut i: usize = 0;
    while i < entries.len()
        invariant
            i <= entries.len(),
            main_properties(entries@, 0) == main_properties(entries@, i as int),
        decreases entries.len() - i,
    {
        match &entries[i].0 {
            runtime_properties::RuntimeComponent::Main => {
                return Some(i);
            },
            _ => {},
        }
        i += 1;
    }
    None
}

/// Makes the components of a running program from the answer to a query
/// for its properties.
pub fn map_runtime_components(
    entries: &Vec<(runtime_properties::RuntimeComponent, Vec<runtime_properties::RuntimeProperty>)>,
) -> (result: Vec<RuntimeComponent>)
    ensures
        result.deep_view() == runtime_components_of(entries@),
{
    let mut result: Vec<RuntimeComponent> = Vec::new();
    match find_main(entries) {
        Some(i) => {
            match fill_component(String::from_str("<MAIN>"), String::new(), &entries[i].1) {
                Some(c) => {
                    result.push(c);
                },
                None => {},
            }
        },
        None => {},
    }
    let ghost first = result.deep_view();
    assert(first =~= match main_component(entries@) {
        Some(main) => seq![main],
        None => Seq::empty(),
    });
    let mut k: usize = 0;
    while k < entries.len()
        invariant
            k <= entries.len(),
            result.deep_view() == first + global_components(entries@, k as int),
        decreases entries.len() - k,
    {
        let ghost before = result.deep_view();
        match &entries[k].0 {
            runtime_properties::RuntimeComponent::Global(name) => {
                match fill_component(name.clone(), name.clone(), &entries[k].1) {
                    Some(c) => {
                        result.push(c);
                        assert(result.deep_view() =~= before.push(c@));
                    },
                    None => {},
                }
            },
            runtime_properties::RuntimeComponent::Main => {},
        }
        k += 1;
        assert(result.deep_view() =~= first + global_components(entries@, k as int));
    }
    result
}

/// Whether a newer list of components has the shape of a shown one: as
/// many components, with the same names, each with as many properties,
/// with the same names.
pub open spec fn compatible(old: Seq<RuntimeComponentModel>, new: Seq<RuntimeComponentModel>) -> bool {
    &&& old.len() == new.len()
    &&& forall|c: int|
        0 <= c < old.len() ==> {
            &&& (#[trigger] old[c]).component_name == new[c].component_name
            &&& old[c].properties.len() == new[c].properties.len()
            &&& forall|p: int|
                0 <= p < old[c].properties.len() ==> (#[trigger] old[c].properties[p]).name
                    == new[c].properties[p].name
        }
}

/// The properties of a shown component after they were patched with newer
/// ones: a property that shows the same in both is the shown one, and
/// every other is the newer one.
pub open spec fn patched_properties(
    old: Seq<RuntimePropertyModel>,
    new: Seq<RuntimePropertyModel>,
) -> Seq<RuntimePropertyModel> {
    Seq::new(
        old.len(),
        |p: int|
            if old[p] == new[p] {
                old[p]
            } else {
                new[p]
            },
    )
}

/// A shown list of components after it was patched with a newer one of the
/// same shape: each component keeps its name and id, and has its
/// properties patched.
pub open spec fn patched(old: Seq<RuntimeComponentModel>, new: Seq<RuntimeComponentModel>) -> Seq<
    RuntimeComponentModel,
> {
    Seq::new(
        old.len(),
        |c: int|
            RuntimeComponentModel {
                component_name: old[c].component_name,
                component_id: old[c].component_id,
                properties: patched_properties(old[c].properties, new[c].properties),
            },
    )
}

fn same_property_names(o: &Vec<RuntimeProperty>, n: &Vec<RuntimeProperty>) -> (r: bool)
    ensures
        r == (o.len() == n.len() && forall|p: int|
            0 <= p < o.len() ==> (#[trigger] o.deep_view()[p]).name == n.deep_view()[p].name),
{
    if o.len() != n.len() {
        return false;
    }
    let mut p: usize = 0;
    while p < o.len()
        invariant
            p <= o.len(),
            o.len() == n.len(),
            forall|x: int| 0 <= x < p ==> (#[trigger] o.deep_view()[x]).name == n.deep_view()[x].name,
        decreases o.len() - p,
    {
        if o[p].name != n[p].name {
            assert(o.deep_view()[p as int].name != n.deep_view()[p as int].name);
            return false;
        }
        p += 1;
    }
    true
}

/// Tells whether a newer list of components has the shape of a shown one.
pub fn is_compatible(old_model: &Vec<RuntimeComponent>, new_model: &Vec<RuntimeComponent>) -> (r:
    bool)
    ensures
        r == compatible(old_model.deep_view(), new_model.deep_view()),
{
    if old_model.len() != new_model.len() {
        return false;
    }
    let ghost old = old_model.deep_view();
    let ghost new = new_model.deep_view();
    let mut c: usize = 0;
    while c < old_model.len()
        invariant
            c <= old_model.len(),
            old_model.len() == new_model.len(),
            old == old_model.deep_view(),
            new == new_model.deep_view(),
            forall|x: int|
                0 <= x < c ==> {
                    &&& (#[trigger] old[x]).component_name == new[x].component_name
                    &&& old[x].properties.len() == new[x].properties.len()
                    &&& forall|p: int|
                        0 <= p < old[x].properties.len() ==> (#[trigger] old[x].properties[p]).name
                            == new[x].properties[p].name
                },
        decreases old_model.len() - c,
    {
        let oc = &old_model[c];
        let nc = &new_model[c];
        if oc.component_name != nc.component_name || !same_property_names(
            &oc.properties,
            &nc.properties,
        ) {
            assert(old[c as int].component_name != new[c as int].component_name || !(old[c as int].properties.len()
                == new[c as int].properties.len() && forall|p: int|
                0 <= p < old[c as int].properties.len() ==> (
                #[trigger] old[c as int].properties[p]).name == new[c as int].properties[p].name));
            return false;
        }
        c += 1;
    }
    true
}

fn patch_properties(o: &mut Vec<RuntimeProperty>, n: &Vec<RuntimeProperty>)
    requires
        old(o).len() == n.len(),
    ensures
        final(o).deep_view() == patched_properties(old(o).deep_view(), n.deep_view()),
{
    let ghost before = o.deep_view();
    let mut p: usize = 0;
    while p < o.len()
        invariant
            p <= o.len(),
            o.len() == n.len(),
            o.len() == before.len(),
            forall|x: int|
                0 <= x < p ==> (#[trigger] o@[x])@ == patched_properties(before, n.deep_view())[x],
            forall|x: int| p <= x < o.len() ==> (#[trigger] o@[x])@ == before[x],
        decreases o.len() - p,
    {
        if !is_semantic_equal(&o[p], &n[p]) {
            o.set(p, n[p].clone());
        }
        p += 1;
    }
    assert(o.deep_view() =~= patched_properties(before, n.deep_view()));
}

/// Brings a shown list of components up to date with a newer one. Where
/// the newer list has another shape, the shown one stays as it is and the
/// newer one is handed back, to be shown in its place. Where the shapes
/// agree, the properties that show something else are replaced in the
/// shown list, every other property is left as it is, and nothing is
/// handed back.
pub fn update_model(old_model: &mut Vec<RuntimeComponent>, new_model: Vec<RuntimeComponent>) -> (r:
    Option<Vec<RuntimeComponent>>)
    ensures
        compatible(old(old_model).deep_view(), new_model.deep_view()) ==> r is None
            && final(old_model).deep_view() == patched(
            old(old_model).deep_view(),
            new_model.deep_view(),
        ),
        !compatible(old(old_model).deep_view(), new_model.deep_view()) ==> r == Some(new_model)
            && final(old_model).deep_view() == old(old_model).deep_view(),
{
    if !is_compatible(old_model, &new_model) {
        return Some(new_model);
    }
    let ghost before = old_model.deep_view();
    let ghost new = new_model.deep_view();
    let mut c: usize = 0;
    while c < old_model.len()
        invariant
            c <= old_model.len(),
            old_model.len() == before.len(),
            new == new_model.deep_view(),
            compatible(before, new),
            forall|x: int| 0 <= x < c ==> (#[trigger] old_model@[x])@ == patched(before, new)[x],
            forall|x: int| c <= x < before.len() ==> (#[trigger] old_model@[x])@ == before[x],
        decreases old_model.len() - c,
    {
        let mut component = old_model.remove(c);
        assert(component@ == before[c as int]);
        assert(before[c as int].properties.len() == new[c as int].properties.len());
        patch_properties(&mut component.properties, &new_model[c].properties);
        old_model.insert(c, component);
        c += 1;
    }
    assert(old_model.deep_view() =~= patched(before, new));
    None
}

/// What a shown list of components is after an update with a newer one:
/// patched where the shapes agree, and the newer one where not.
pub open spec fn runtime_update(
    old: Seq<RuntimeComponentModel>,
    new: Seq<RuntimeComponentModel>,
) -> Seq<RuntimeComponentModel> {
    if compatible(old, new) {
        patched(old, new)
    } else {
        new
    }
}

/// A patched list shows what the newer list shows: every component has the
/// newer list's name and properties, and keeps its own id.
pub proof fn lemma_patched_shows_new(
    old: Seq<RuntimeComponentModel>,
    new: Seq<RuntimeComponentModel>,
)
    requires
        compatible(old, new),
    ensures
        patched(old, new).len() == new.len(),
        forall|c: int|
            0 <= c < new.len() ==> {
                &&& (#[trigger] patched(old, new)[c]).component_name == new[c].component_name
                &&& patched(old, new)[c].component_id == old[c].component_id
                &&& patched(old, new)[c].properties == new[c].properties
            },
{
    assert forall|c: int| 0 <= c < new.len() implies {
        &&& (#[trigger] patched(old, new)[c]).component_name == new[c].component_name
        &&& patched(old, new)[c].component_id == old[c].component_id
        &&& patched(old, new)[c].properties == new[c].properties
    } by {
        assert(old[c].component_name == new[c].component_name);
        assert(patched(old, new)[c].properties =~= new[c].properties);
    }
}

/// A list of components updated with itself stays as it is.
pub proof fn lemma_runtime_update_with_itself(old: Seq<RuntimeComponentModel>)
    ensures
        compatible(old, old),
        runtime_update(old, old) == old,
{
    assert forall|c: int| 0 <= c < old.len() implies #[trigger] patched(old, old)[c] == old[c] by {
        assert(patched(old, old)[c].properties =~= old[c].properties);
    }
    assert(patched(old, old) =~= old);
}

} // verus!
