//! The engine's model of one parsed source file: a tree of typed items
//! reduced to what the comparison strategies read. An external layer parses
//! the raw text and supplies this model together with each function's
//! canonical rendering, the deterministic, whitespace-normalized text of its
//! signature and body produced by a pretty-printer.

use crate::catalog::Catalog;
use vstd::prelude::*;

verus! {

/// A function or method definition: its name and the canonical rendering of
/// its signature and body, stripped of any surrounding container. Two
/// definitions that differ only in formatting have equal canonical
/// renderings; any change to signature, body, attributes or visibility
/// changes the rendering.
pub struct FnDef {
    pub name: String,
    pub canon: String,
}

/// A trait declaration: its name and the names of its declared methods.
/// Associated types and constants are not members for diffing purposes.
pub struct TraitDef {
    pub name: String,
    pub methods: Vec<String>,
}

/// One item of a source file, reduced to what the strategies read.
pub enum ModelItem {
    /// A function or method definition.
    Func(FnDef),
    /// An implementation block, with the items declared inside it.
    ImplBlock(Vec<ModelItem>),
    /// A trait declaration.
    TraitDecl(TraitDef),
    /// Any other item, with the items nested inside it.
    Other(Vec<ModelItem>),
}

/// A parsed source file: the sequence of its top-level items.
pub struct SourceFile {
    pub items: Vec<ModelItem>,
}

/// Where a walk of the tree currently stands: at the top level of the file,
/// directly inside an implementation block, or nested inside some other item.
#[derive(Clone, Copy)]
pub enum Scope {
    TopLevel,
    InImpl,
    Nested,
}

/// What one item contributes to the function catalog: a top-level function
/// or a method directly inside an implementation block is recorded under its
/// name; implementation blocks are searched at any nesting depth.
pub open spec fn fn_walk_item(it: ModelItem, scope: Scope, acc: Map<Seq<char>, Seq<char>>) -> Map<
    Seq<char>,
    Seq<char>,
>
    decreases it,
{
    match it {
        ModelItem::Func(d) => match scope {
            Scope::Nested => acc,
            _ => acc.insert(d.name@, d.canon@),
        },
        ModelItem::ImplBlock(children) => fn_walk_items(children@, Scope::InImpl, acc),
        ModelItem::TraitDecl(_) => acc,
        ModelItem::Other(children) => fn_walk_items(children@, Scope::Nested, acc),
    }
}

/// The function catalog built by walking `items` in order, starting from
/// `acc`; a later definition of a name overwrites an earlier one.
pub open spec fn fn_walk_items(
    items: Seq<ModelItem>,
    scope: Scope,
    acc: Map<Seq<char>, Seq<char>>,
) -> Map<Seq<char>, Seq<char>>
    decreases items,
{
    if items.len() == 0 {
        acc
    } else {
        fn_walk_item(items.last(), scope, fn_walk_items(items.drop_last(), scope, acc))
    }
}

/// The function catalog of a whole file: every top-level function and every
/// method of every implementation block, including implementation blocks
/// nested inside other items, mapped from its name to its canonical
/// rendering.
pub open spec fn fn_catalog(f: SourceFile) -> Map<Seq<char>, Seq<char>> {
    fn_walk_items(f.items@, Scope::TopLevel, Map::empty())
}

/// What one item contributes to the trait catalog: every trait declaration,
/// at any nesting depth, is recorded under its name.
pub open spec fn trait_walk_item(it: ModelItem, acc: Map<Seq<char>, Seq<Seq<char>>>) -> Map<
    Seq<char>,
    Seq<Seq<char>>,
>
    decreases it,
{
    match it {
        ModelItem::Func(_) => acc,
        ModelItem::ImplBlock(children) => trait_walk_items(children@, acc),
        ModelItem::TraitDecl(t) => acc.insert(t.name@, t.methods.deep_view()),
        ModelItem::Other(children) => trait_walk_items(children@, acc),
    }
}

/// The trait catalog built by walking `items` in order, starting from `acc`.
pub open spec fn trait_walk_items(items: Seq<ModelItem>, acc: Map<Seq<char>, Seq<Seq<char>>>) -> Map<
    Seq<char>,
    Seq<Seq<char>>,
>
    decreases items,
{
    if items.len() == 0 {
        acc
    } else {
        trait_walk_item(items.last(), trait_walk_items(items.drop_last(), acc))
    }
}

/// The trait catalog of a whole file: every trait declaration mapped from
/// its name to the list of its declared method names.
pub open spec fn trait_catalog(f: SourceFile) -> Map<Seq<char>, Seq<Seq<char>>> {
    trait_walk_items(f.items@, Map::empty())
}

/// Copies a vector of strings, keeping its contents.
fn clone_string_vec(v: &Vec<String>) -> (r: Vec<String>)
    ensures
        r.deep_view() == v.deep_view(),
{
    let mut r: Vec<String> = Vec::new();
    let n = v.len();
    let mut i: usize = 0;
    while i < n
        invariant
            i <= n,
            n == v@.len(),
            r.deep_view() == v.deep_view().take(i as int),
        decreases n - i,
    {
        let ghost r0 = r;
        r.push(v[i].clone());
        proof {
            assert(v.deep_view().len() == n as int);
            assert(v.deep_view().take(i as int).len() == i as int);
            assert(r0.deep_view().len() == r0@.len());
            assert(r0@.len() == i as int);
            assert forall|j: int| 0 <= j <= i as int implies r.deep_view()[j] == v.deep_view()[j] by {
                if j < i as int {
                    assert(r@[j] == r0@[j]);
                    assert(r0.deep_view()[j] == v.deep_view().take(i as int)[j]);
                }
            }
            assert(r.deep_view() =~= v.deep_view().take(i + 1));
        }
        i = i + 1;
    }
    proof {
        assert(v.deep_view().take(n as int) =~= v.deep_view());
    }
    r
}

/// Walks `items` in order, recording each function or method that
/// `fn_walk_item` catalogs.
fn scan_fn_items(items: &Vec<ModelItem>, scope: Scope, c: &mut Catalog<String>)
    ensures
        final(c)@ == fn_walk_items(items@, scope, old(c)@),
    decreases items@,
{
    let n = items.len();
    let mut i: usize = 0;
    proof {
        assert(items@.take(0) =~= Seq::<ModelItem>::empty());
    }
    while i < n
        invariant
            i <= n,
            n == items@.len(),
            c@ == fn_walk_items(items@.take(i as int), scope, old(c)@),
        decreases n - i,
    {
        proof {
            assert(items@.take(i + 1).drop_last() =~= items@.take(i as int));
            assert(items@.take(i + 1).last() == items@[i as int]);
        }
        match &items[i] {
            ModelItem::Func(d) => {
                match scope {
                    Scope::Nested => {},
                    _ => {
                        c.insert(d.name.clone(), d.canon.clone());
                    },
                }
            },
            ModelItem::ImplBlock(children) => {
                scan_fn_items(children, Scope::InImpl, c);
            },
            ModelItem::TraitDecl(_) => {},
            ModelItem::Other(children) => {
                scan_fn_items(children, Scope::Nested, c);
            },
        }
        assert(fn_walk_items(items@.take(i + 1), scope, old(c)@) == fn_walk_item(
            items@[i as int],
            scope,
            fn_walk_items(items@.take(i as int), scope, old(c)@),
        ));
        i = i + 1;
    }
    proof {
        assert(items@.take(n as int) =~= items@);
    }
}

/// Builds the function catalog of `f`, covering every top-level function and
/// every method of every implementation block at any nesting depth. Each is
/// recorded under its name with its canonical rendering; when two
/// definitions share a name, the later visited one overwrites the earlier.
pub fn build_fn_catalog(f: &SourceFile) -> (c: Catalog<String>)
    ensures
        c@ == fn_catalog(*f),
{
    let mut c = Catalog::new();
    scan_fn_items(&f.items, Scope::TopLevel, &mut c);
    c
}

/// Walks `items` in order, recording each trait that `trait_walk_item`
/// catalogs.
fn scan_trait_items(items: &Vec<ModelItem>, c: &mut Catalog<Vec<String>>)
    ensures
        final(c)@ == trait_walk_items(items@, old(c)@),
    decreases items@,
{
    let n = items.len();
    let mut i: usize = 0;
    proof {
        assert(items@.take(0) =~= Seq::<ModelItem>::empty());
    }
    while i < n
        invariant
            i <= n,
            n == items@.len(),
            c@ == trait_walk_items(items@.take(i as int), old(c)@),
        decreases n - i,
    {
        proof {
            assert(items@.take(i + 1).drop_last() =~= items@.take(i as int));
            assert(items@.take(i + 1).last() == items@[i as int]);
        }
        match &items[i] {
            ModelItem::Func(_) => {},
            ModelItem::ImplBlock(children) => {
                scan_trait_items(children, c);
            },
            ModelItem::TraitDecl(t) => {
                c.insert(t.name.clone(), clone_string_vec(&t.methods));
            },
            ModelItem::Other(children) => {
                scan_trait_items(children, c);
            },
        }
        assert(trait_walk_items(items@.take(i + 1), old(c)@) == trait_walk_item(
            items@[i as int],
            trait_walk_items(items@.take(i as int), old(c)@),
        ));
        i = i + 1;
    }
    proof {
        assert(items@.take(n as int) =~= items@);
    }
}

/// Builds the trait catalog of `f`: every trait declaration at any nesting
/// depth, recorded under its name with the list of its declared method
/// names; when two declarations share a name, the later visited one
/// overwrites the earlier.
pub fn build_trait_catalog(f: &SourceFile) -> (c: Catalog<Vec<String>>)
    ensures
        c@ == trait_catalog(*f),
{
    let mut c = Catalog::new();
    scan_trait_items(&f.items, &mut c);
    c
}

} // verus!
