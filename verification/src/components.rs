//! The list of the components that the preview knows, by where they come
//! from: built in, from the widget library, from another library, or from
//! a file.

use crate::paths::{
    clone_path, common_prefix, common_start, join, joined, places, sort_order, sorted_order,
};
use crate::text::strings_equal;
use vstd::prelude::*;

verus! {

/// Where a component is defined.
#[derive(Debug)]
pub struct ComponentLocation {
    /// The URL of the document.
    pub url: String,
    /// The name of the document's file; empty where the URL names no file.
    pub file_name: String,
    /// The name of the library, where the document is part of one: what
    /// follows `/@` at the start of the URL's path.
    pub library: Option<String>,
    /// The path of the document's file, without `.` and `..`, component by
    /// component; empty where the URL names no file.
    pub path: Vec<String>,
}

/// What is known of a component.
#[derive(Debug)]
pub struct ComponentInformation {
    pub name: String,
    pub category: String,
    pub is_global: bool,
    pub is_builtin: bool,
    pub is_std_widget: bool,
    pub is_exported: bool,
    pub defined_at: Option<ComponentLocation>,
}

/// One component as the list shows it.
#[derive(Debug, PartialEq, Eq)]
pub struct ComponentItem {
    pub name: String,
    /// The place of the component among the known components.
    pub index: i32,
    /// The URL of the document that defines the component, or nothing.
    pub defined_at: String,
    /// The name of that document's file, or nothing.
    pub pretty_location: String,
    pub is_user_defined: bool,
    pub is_currently_shown: bool,
    pub is_exported: bool,
}

/// What a component of the list holds.
pub struct ComponentItemModel {
    pub name: Seq<char>,
    pub index: i32,
    pub defined_at: Seq<char>,
    pub pretty_location: Seq<char>,
    pub is_user_defined: bool,
    pub is_currently_shown: bool,
    pub is_exported: bool,
}

impl DeepView for ComponentItem {
    type V = ComponentItemModel;

    open spec fn deep_view(&self) -> ComponentItemModel {
        ComponentItemModel {
            name: self.name@,
            index: self.index,
            defined_at: self.defined_at@,
            pretty_location: self.pretty_location@,
            is_user_defined: self.is_user_defined,
            is_currently_shown: self.is_currently_shown,
            is_exported: self.is_exported,
        }
    }
}

impl View for ComponentItem {
    type V = ComponentItemModel;

    open spec fn view(&self) -> ComponentItemModel {
        self.deep_view()
    }
}

impl Clone for ComponentItem {
    fn clone(&self) -> (r: ComponentItem)
        ensures
            r@ == self@,
    {
        ComponentItem {
            name: self.name.clone(),
            index: self.index,
            defined_at: self.defined_at.clone(),
            pretty_location: self.pretty_location.clone(),
            is_user_defined: self.is_user_defined,
            is_currently_shown: self.is_currently_shown,
            is_exported: self.is_exported,
        }
    }
}

/// The components of one category, library or file.
#[derive(Debug, PartialEq, Eq)]
pub struct ComponentListItem {
    pub category: String,
    /// The URL of the file, for the components of a file.
    pub file_url: String,
    pub components: Vec<ComponentItem>,
}

/// What an entry of the component list holds.
pub struct ComponentListItemModel {
    pub category: Seq<char>,
    pub file_url: Seq<char>,
    pub components: Seq<ComponentItemModel>,
}

impl DeepView for ComponentListItem {
    type V = ComponentListItemModel;

    open spec fn deep_view(&self) -> ComponentListItemModel {
        ComponentListItemModel {
            category: self.category@,
            file_url: self.file_url@,
            components: self.components.deep_view(),
        }
    }
}

impl View for ComponentListItem {
    type V = ComponentListItemModel;

    open spec fn view(&self) -> ComponentListItemModel {
        self.deep_view()
    }
}

/// The part of the list that a component belongs to.
#[derive(Clone, Copy, Debug, PartialEq, Eq, Structural)]
pub enum Section {
    Builtin,
    StdWidget,
    Library,
    File,
}

/// The components gathered under one key of one section, in the order in
/// which they came.
#[derive(Debug)]
pub struct Bucket {
    pub section: Section,
    /// The category or the library as one component, or the path of the
    /// file.
    pub key: Vec<String>,
    /// The URL of the first component, for the components of a file.
    pub file_url: String,
    pub items: Vec<ComponentItem>,
}

/// What a bucket holds.
pub struct BucketModel {
    pub section: Section,
    pub key: Seq<Seq<char>>,
    pub file_url: Seq<char>,
    pub items: Seq<ComponentItemModel>,
}

impl DeepView for Bucket {
    type V = BucketModel;

    open spec fn deep_view(&self) -> BucketModel {
        BucketModel {
            section: self.section,
            key: self.key.deep_view(),
            file_url: self.file_url@,
            items: self.items.deep_view(),
        }
    }
}

impl View for Bucket {
    type V = BucketModel;

    open spec fn view(&self) -> BucketModel {
        self.deep_view()
    }
}

/// The URL and the file name of the document that defines a component;
/// both empty where it is defined in none.
pub open spec fn definition_location(ci: ComponentInformation) -> (Seq<char>, Seq<char>) {
    match ci.defined_at {
        Some(location) => (location.url@, location.file_name@),
        None => (Seq::empty(), Seq::empty()),
    }
}

/// Reads off the URL and the file name of the document that defines a
/// component.
pub fn extract_definition_location(ci: &ComponentInformation) -> (r: (String, String))
    ensures
        (r.0@, r.1@) == definition_location(*ci),
{
    match &ci.defined_at {
        Some(location) => (location.url.clone(), location.file_name.clone()),
        None => (String::new(), String::new()),
    }
}

/// A component as the list shows it. `index` is its place among the known
/// components, and `current` the place of the component that is shown.
pub open spec fn item_of(ci: ComponentInformation, index: int, current: int) -> ComponentItemModel {
    ComponentItemModel {
        name: ci.name@,
        index: index as i32,
        defined_at: definition_location(ci).0,
        pretty_location: definition_location(ci).1,
        is_user_defined: !(ci.is_builtin || ci.is_std_widget),
        is_currently_shown: index == current,
        is_exported: ci.is_exported,
    }
}

/// The section and the key that a component is listed under: none for a
/// global; the library or the file for a component that is defined in a
/// document; and the category among the built-in components or the widgets
/// for any other.
pub open spec fn placement(ci: ComponentInformation) -> Option<(Section, Seq<Seq<char>>)> {
    if ci.is_global {
        None
    } else {
        match ci.defined_at {
            Some(location) => match location.library {
                Some(library) => Some((Section::Library, seq![seq!['@'] + library@])),
                None => Some((Section::File, location.path.deep_view())),
            },
            None => if ci.is_builtin {
                Some((Section::Builtin, seq![ci.category@]))
            } else {
                Some((Section::StdWidget, seq![ci.category@]))
            },
        }
    }
}

/// The place of the first bucket from `from` on that has the given section
/// and key.
pub open spec fn bucket_place(
    buckets: Seq<BucketModel>,
    section: Section,
    key: Seq<Seq<char>>,
    from: int,
) -> Option<int>
    decreases buckets.len() - from,
{
    if from < 0 || from >= buckets.len() {
        None
    } else if buckets[from].section == section && buckets[from].key == key {
        Some(from)
    } else {
        bucket_place(buckets, section, key, from + 1)
    }
}

/// The buckets after a component was put in: into the bucket of its
/// section and key, or into a new bucket behind the others.
pub open spec fn put(
    buckets: Seq<BucketModel>,
    ci: ComponentInformation,
    index: int,
    current: int,
) -> Seq<BucketModel> {
    match placement(ci) {
        Some((section, key)) => match bucket_place(buckets, section, key, 0) {
            Some(place) => buckets.update(
                place,
                BucketModel {
                    items: buckets[place].items.push(item_of(ci, index, current)),
                    ..buckets[place]
                },
            ),
            None => buckets.push(
                BucketModel {
                    section,
                    key,
                    file_url: if section == Section::File {
                        definition_location(ci).0
                    } else {
                        Seq::empty()
                    },
                    items: seq![item_of(ci, index, current)],
                },
            ),
        },
        None => buckets,
    }
}

/// The buckets of the first `count` known components.
pub open spec fn buckets_of(known: Seq<ComponentInformation>, current: int, count: int) -> Seq<
    BucketModel,
>
    decreases count,
{
    if count <= 0 {
        Seq::empty()
    } else {
        put(buckets_of(known, current, count - 1), known[count - 1], count - 1, current)
    }
}

/// The start that the paths of the files among the first `count` known
/// components have in common. An empty start is given up for the next
/// path.
pub open spec fn longest_prefix(known: Seq<ComponentInformation>, count: int) -> Seq<Seq<char>>
    decreases count,
{
    if count <= 0 {
        Seq::empty()
    } else {
        let before = longest_prefix(known, count - 1);
        match placement(known[count - 1]) {
            Some((Section::File, path)) => if path.len() == 0 {
                before
            } else if before.len() == 0 {
                path
            } else {
                common_start(before, path)
            },
            _ => before,
        }
    }
}

/// The name that a bucket is shown under, as a path: the key of a category
/// or library; and for a file, its path without the common start, or its
/// file name where its path is the common start.
pub open spec fn shown_name(bucket: BucketModel, prefix: Seq<Seq<char>>) -> Seq<Seq<char>> {
    if bucket.section != Section::File {
        bucket.key
    } else if bucket.key == prefix {
        if bucket.key.len() == 0 {
            Seq::empty()
        } else {
            seq![bucket.key.last()]
        }
    } else if prefix.is_prefix_of(bucket.key) {
        bucket.key.skip(prefix.len() as int)
    } else {
        bucket.key
    }
}

/// Those of the first `count` buckets that belong to a section, in order.
pub open spec fn selected(buckets: Seq<BucketModel>, section: Section, count: int) -> Seq<
    BucketModel,
>
    decreases count,
{
    if count <= 0 {
        Seq::empty()
    } else if buckets[count - 1].section == section {
        selected(buckets, section, count - 1).push(buckets[count - 1])
    } else {
        selected(buckets, section, count - 1)
    }
}

/// The keys by which the components of a bucket are sorted: their names.
pub open spec fn item_keys(items: Seq<ComponentItemModel>) -> Seq<Seq<Seq<char>>> {
    Seq::new(items.len(), |i: int| seq![items[i].name])
}

/// The components of a bucket in the order of their names; components of
/// one name keep the order in which they came.
pub open spec fn sorted_items(items: Seq<ComponentItemModel>) -> Seq<ComponentItemModel> {
    let order = sorted_order(item_keys(items), items.len() as int);
    Seq::new(items.len(), |k: int| items[order[k]])
}

/// The entry of the list that a bucket becomes.
pub open spec fn list_item(bucket: BucketModel, prefix: Seq<Seq<char>>) -> ComponentListItemModel {
    let name = shown_name(bucket, prefix);
    ComponentListItemModel {
        category: joined(name, name.len() as int),
        file_url: bucket.file_url,
        components: sorted_items(bucket.items),
    }
}

/// The names that the buckets are shown under.
pub open spec fn shown_names(buckets: Seq<BucketModel>, prefix: Seq<Seq<char>>) -> Seq<
    Seq<Seq<char>>,
> {
    Seq::new(buckets.len(), |i: int| shown_name(buckets[i], prefix))
}

/// The entries of one section of the list: the buckets of the section in
/// the order of the names they are shown under; buckets whose names sort
/// alike keep the order in which they came.
pub open spec fn section_list(
    buckets: Seq<BucketModel>,
    section: Section,
    prefix: Seq<Seq<char>>,
) -> Seq<ComponentListItemModel> {
    let chosen = selected(buckets, section, buckets.len() as int);
    let order = sorted_order(shown_names(chosen, prefix), chosen.len() as int);
    Seq::new(chosen.len(), |k: int| list_item(chosen[order[k]], prefix))
}

/// The component list of the known components: the built-in components by
/// category, then the widgets by category, then the components of
/// libraries by library, then the components of files by file. Globals are
/// left out.
pub open spec fn component_list(known: Seq<ComponentInformation>, current: int) -> Seq<
    ComponentListItemModel,
> {
    let buckets = buckets_of(known, current, known.len() as int);
    let prefix = longest_prefix(known, known.len() as int);
    section_list(buckets, Section::Builtin, prefix) + section_list(
        buckets,
        Section::StdWidget,
        prefix,
    ) + section_list(buckets, Section::Library, prefix) + section_list(
        buckets,
        Section::File,
        prefix,
    )
}

/// Makes the item that the list shows for a component.
pub fn component_item(ci: &ComponentInformation, index: usize, current: usize) -> (item:
    ComponentItem)
    requires
        index <= i32::MAX,
    ensures
        item@ == item_of(*ci, index as int, current as int),
{
    let (url, pretty_location) = extract_definition_location(ci);
    ComponentItem {
        name: ci.name.clone(),
        index: index as i32,
        defined_at: url,
        pretty_location,
        is_user_defined: !(ci.is_builtin || ci.is_std_widget),
        is_currently_shown: index == current,
        is_exported: ci.is_exported,
    }
}

fn one_component(text: String) -> (r: Vec<String>)
    ensures
        r.deep_view() == seq![text@],
{
    let mut r: Vec<String> = Vec::new();
    r.push(text);
    assert(r.deep_view() =~= seq![text@]);
    r
}

fn placement_of(ci: &ComponentInformation) -> (r: Option<(Section, Vec<String>)>)
    ensures
        match r {
            Some((section, key)) => placement(*ci) == Some((section, key.deep_view())),
            None => placement(*ci) is None,
        },
{
    if ci.is_global {
        return None;
    }
    match &ci.defined_at {
        Some(location) => match &location.library {
            Some(library) => {
                let mut name = String::new();
                name.push('@');
                name.append(library.as_str());
                assert(name@ =~= seq!['@'] + library@);
                Some((Section::Library, one_component(name)))
            },
            None => Some((Section::File, clone_path(&location.path))),
        },
        None => {
            if ci.is_builtin {
                Some((Section::Builtin, one_component(ci.category.clone())))
            } else {
                Some((Section::StdWidget, one_component(ci.category.clone())))
            }
        },
    }
}

fn find_bucket(buckets: &Vec<Bucket>, section: Section, key: &Vec<String>) -> (r: Option<usize>)
    ensures
        match r {
            Some(place) => place < buckets.len() && bucket_place(
                buckets.deep_view(),
                section,
                key.deep_view(),
                0,
            ) == Some(place as int),
            None => bucket_place(buckets.deep_view(), section, key.deep_view(), 0) is None,
        },
{
    let mut i: usize = 0;
    while i < buckets.len()
        invariant
            i <= buckets.len(),
            bucket_place(buckets.deep_view(), section, key.deep_view(), 0) == bucket_place(
                buckets.deep_view(),
                section,
                key.deep_view(),
                i as int,
            ),
        decreases buckets.len() - i,
    {
        if buckets[i].section == section && strings_equal(&buckets[i].key, key) {
            return Some(i);
        }
        i += 1;
    }
    None
}

fn gather(known: &Vec<ComponentInformation>, current: usize) -> (buckets: Vec<Bucket>)
    requires
        known.len() <= i32::MAX,
    ensures
        buckets.deep_view() == buckets_of(known@, current as int, known.len() as int),
{
    let mut buckets: Vec<Bucket> = Vec::new();
    let mut idx: usize = 0;
    assert(buckets.deep_view() =~= Seq::empty());
    while idx < known.len()
        invariant
            idx <= known.len(),
            known.len() <= i32::MAX,
            buckets.deep_view() == buckets_of(known@, current as int, idx as int),
        decreases known.len() - idx,
    {
        let ci = &known[idx];
        let ghost before = buckets.deep_view();
        match placement_of(ci) {
            Some((section, key)) => {
                let item = component_item(ci, idx, current);
                match find_bucket(&buckets, section, &key) {
                    Some(place) => {
                        let mut bucket = buckets.remove(place);
                        let ghost old_items = bucket.items.deep_view();
                        bucket.items.push(item);
                        assert(bucket.items.deep_view() =~= old_items.push(item@));
                        buckets.insert(place, bucket);
                        assert(buckets.deep_view() =~= put(
                            before,
                            *ci,
                            idx as int,
                            current as int,
                        ));
                    },
                    None => {
                        let file_url = match section {
                            Section::File => item.defined_at.clone(),
                            _ => String::new(),
                        };
                        let mut items: Vec<ComponentItem> = Vec::new();
                        items.push(item);
                        assert(items.deep_view() =~= seq![item@]);
                        buckets.push(Bucket { section, key, file_url, items });
                        assert(buckets.deep_view() =~= put(
                            before,
                            *ci,
                            idx as int,
                            current as int,
                        ));
                    },
                }
            },
            None => {},
        }
        idx += 1;
    }
    buckets
}

fn longest_path_prefix(known: &Vec<ComponentInformation>) -> (prefix: Vec<String>)
    ensures
        prefix.deep_view() == longest_prefix(known@, known.len() as int),
{
    let mut prefix: Vec<String> = Vec::new();
    let mut idx: usize = 0;
    assert(prefix.deep_view() =~= Seq::empty());
    while idx < known.len()
        invariant
            idx <= known.len(),
            prefix.deep_view() == longest_prefix(known@, idx as int),
        decreases known.len() - idx,
    {
        match placement_of(&known[idx]) {
            Some((Section::File, path)) => {
                if path.len() != 0 {
                    if prefix.len() == 0 {
                        prefix = path;
                    } else {
                        prefix = common_prefix(&prefix, &path);
                    }
                }
            },
            _ => {},
        }
        idx += 1;
    }
    prefix
}

fn starts_with(path: &Vec<String>, prefix: &Vec<String>) -> (r: bool)
    ensures
        r == prefix.deep_view().is_prefix_of(path.deep_view()),
{
    if prefix.len() > path.len() {
        return false;
    }
    let mut i: usize = 0;
    while i < prefix.len()
        invariant
            i <= prefix.len() <= path.len(),
            forall|j: int| 0 <= j < i ==> prefix.deep_view()[j] == path.deep_view()[j],
        decreases prefix.len() - i,
    {
        if prefix[i] != path[i] {
            assert(prefix.deep_view()[i as int] != path.deep_view().subrange(
                0,
                prefix.len() as int,
            )[i as int]);
            return false;
        }
        i += 1;
    }
    assert(prefix.deep_view() =~= path.deep_view().subrange(0, prefix.len() as int));
    true
}

fn bucket_name(bucket: &Bucket, prefix: &Vec<String>) -> (name: Vec<String>)
    ensures
        name.deep_view() == shown_name(bucket@, prefix.deep_view()),
{
    match bucket.section {
        Section::File => {},
        _ => {
            return clone_path(&bucket.key);
        },
    }
    if strings_equal(&bucket.key, prefix) {
        let mut name: Vec<String> = Vec::new();
        if bucket.key.len() > 0 {
            name.push(bucket.key[bucket.key.len() - 1].clone());
            assert(name.deep_view() =~= seq![bucket.key.deep_view().last()]);
        } else {
            assert(name.deep_view() =~= Seq::empty());
        }
        name
    } else if starts_with(&bucket.key, prefix) {
        let mut name: Vec<String> = Vec::new();
        let mut i: usize = prefix.len();
        while i < bucket.key.len()
            invariant
                prefix.len() <= i <= bucket.key.len(),
                name.len() == i - prefix.len(),
                forall|j: int|
                    0 <= j < name.len() ==> (#[trigger] name@[j])@ == bucket.key@[j
                        + prefix.len()]@,
            decreases bucket.key.len() - i,
        {
            name.push(bucket.key[i].clone());
            i += 1;
        }
        assert(name.deep_view() =~= bucket.key.deep_view().skip(prefix.len() as int));
        name
    } else {
        clone_path(&bucket.key)
    }
}

/// Sorts the components of a bucket by name, keeping the order of
/// components of one name.
pub fn sort_items(items: &Vec<ComponentItem>) -> (sorted: Vec<ComponentItem>)
    ensures
        sorted.deep_view() == sorted_items(items.deep_view()),
{
    let mut keys: Vec<Vec<String>> = Vec::new();
    let mut i: usize = 0;
    while i < items.len()
        invariant
            i <= items.len(),
            keys.len() == i,
            forall|j: int|
                0 <= j < i ==> (#[trigger] keys@[j]).deep_view() == seq![items.deep_view()[j].name],
        decreases items.len() - i,
    {
        keys.push(one_component(items[i].name.clone()));
        i += 1;
    }
    assert(keys.deep_view() =~= item_keys(items.deep_view()));
    let order = sort_order(&keys);
    let mut sorted: Vec<ComponentItem> = Vec::new();
    let mut k: usize = 0;
    while k < order.len()
        invariant
            k <= order.len(),
            order.len() == items.len(),
            sorted.len() == k,
            forall|x: int| 0 <= x < order.len() ==> (#[trigger] order@[x]) < items.len(),
            forall|x: int| 0 <= x < k ==> (#[trigger] sorted@[x])@ == items.deep_view()[order@[x] as int],
        decreases order.len() - k,
    {
        sorted.push(items[order[k]].clone());
        k += 1;
    }
    proof {
        let spec_order = sorted_order(item_keys(items.deep_view()), items.len() as int);
        assert forall|x: int| 0 <= x < items.len() implies #[trigger] sorted.deep_view()[x]
            == sorted_items(items.deep_view())[x] by {
            assert(places(order@)[x] == order@[x]);
        }
        assert(sorted.deep_view() =~= sorted_items(items.deep_view()));
    }
    sorted
}

/// Makes the entries of one section of the list from the buckets.
pub fn sort_subset(buckets: &Vec<Bucket>, section: Section, prefix: &Vec<String>) -> (output: Vec<
    ComponentListItem,
>)
    ensures
        output.deep_view() == section_list(buckets.deep_view(), section, prefix.deep_view()),
{
    let ghost all = buckets.deep_view();
    let ghost start = prefix.deep_view();
    let mut chosen: Vec<usize> = Vec::new();
    let mut names: Vec<Vec<String>> = Vec::new();
    let mut i: usize = 0;
    while i < buckets.len()
        invariant
            i <= buckets.len(),
            all == buckets.deep_view(),
            start == prefix.deep_view(),
            chosen.len() == names.len(),
            chosen.len() == selected(all, section, i as int).len(),
            forall|x: int| 0 <= x < chosen.len() ==> (#[trigger] chosen@[x]) < buckets.len(),
            forall|x: int|
                0 <= x < chosen.len() ==> all[(#[trigger] chosen@[x]) as int] == selected(
                    all,
                    section,
                    i as int,
                )[x],
            forall|x: int|
                0 <= x < names.len() ==> (#[trigger] names@[x]).deep_view() == shown_name(
                    selected(all, section, i as int)[x],
                    start,
                ),
        decreases buckets.len() - i,
    {
        if buckets[i].section == section {
            chosen.push(i);
            names.push(bucket_name(&buckets[i], prefix));
        }
        i += 1;
    }
    let ghost picked = selected(all, section, all.len() as int);
    assert(names.deep_view() =~= shown_names(picked, start));
    let order = sort_order(&names);
    let mut output: Vec<ComponentListItem> = Vec::new();
    let mut k: usize = 0;
    while k < order.len()
        invariant
            k <= order.len(),
            all == buckets.deep_view(),
            start == prefix.deep_view(),
            picked == selected(all, section, all.len() as int),
            order.len() == names.len(),
            chosen.len() == names.len(),
            chosen.len() == picked.len(),
            output.len() == k,
            places(order@) == sorted_order(shown_names(picked, start), picked.len() as int),
            forall|x: int| 0 <= x < order.len() ==> (#[trigger] order@[x]) < names.len(),
            forall|x: int| 0 <= x < chosen.len() ==> (#[trigger] chosen@[x]) < buckets.len(),
            forall|x: int| 0 <= x < chosen.len() ==> all[(#[trigger] chosen@[x]) as int] == picked[x],
            forall|x: int|
                0 <= x < names.len() ==> (#[trigger] names@[x]).deep_view() == shown_name(
                    picked[x],
                    start,
                ),
            forall|x: int|
                0 <= x < k ==> (#[trigger] output@[x])@ == section_list(all, section, start)[x],
        decreases order.len() - k,
    {
        let place = order[k];
        assert(places(order@)[k as int] == place);
        let bucket = &buckets[chosen[place]];
        assert(bucket@ == picked[place as int]);
        let item = ComponentListItem {
            category: join(&names[place]),
            file_url: bucket.file_url.clone(),
            components: sort_items(&bucket.items),
        };
        assert(item@ == list_item(picked[place as int], start));
        output.push(item);
        k += 1;
    }
    assert(output.deep_view() =~= section_list(all, section, start));
    output
}

/// Makes the component list of the known components.
pub fn list_components(known_components: &Vec<ComponentInformation>, current_component_index: usize) -> (
    all_components: Vec<ComponentListItem>)
    requires
        known_components.len() <= i32::MAX,
    ensures
        all_components.deep_view() == component_list(
            known_components@,
            current_component_index as int,
        ),
{
    let buckets = gather(known_components, current_component_index);
    let longest_path_prefix = longest_path_prefix(known_components);
    let mut all_components = sort_subset(&buckets, Section::Builtin, &longest_path_prefix);
    let mut std_widgets_components = sort_subset(
        &buckets,
        Section::StdWidget,
        &longest_path_prefix,
    );
    let mut library_components = sort_subset(&buckets, Section::Library, &longest_path_prefix);
    let mut file_components = sort_subset(&buckets, Section::File, &longest_path_prefix);
    let ghost a = all_components.deep_view();
    let ghost b = std_widgets_components.deep_view();
    let ghost c = library_components.deep_view();
    let ghost d = file_components.deep_view();
    all_components.append(&mut std_widgets_components);
    all_components.append(&mut library_components);
    all_components.append(&mut file_components);
    assert(all_components.deep_view() =~= a + b + c + d);
    all_components
}

} // verus!
