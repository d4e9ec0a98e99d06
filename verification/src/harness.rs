//! The test harness: from the declarations that a parser reports for the
//! source files of a project, the marked test functions and the
//! directives they need are collected, and a single unit is written out
//! that declares every test function and calls each of them from `main`.

use crate::project::Project;
use crate::text::{clone_opt_text, concat, opt_text, text_is};
use itertools::Itertools;
use vstd::prelude::*;
use vstd::slice::{slice_subrange, slice_to_vec};
use vstd::string::*;
use vstd::utf8::{decode_utf8, valid_utf8};

verus! {

/// The kind of a harvested fragment.
#[derive(Debug, Clone, Copy, PartialEq, Eq, Structural, Hash)]
pub enum ItemType {
    FunctionDecl,
    UsingDirective,
    InclusionDirective,
}

/// The kind of a declaration, as far as the harness tells kinds apart.
#[derive(Debug, Clone, Copy, PartialEq, Eq, Structural)]
pub enum DeclarationKind {
    FunctionDecl,
    UsingDirective,
    InclusionDirective,
    Other,
}

/// Why a fragment could not be harvested.
#[derive(Debug, Clone, Copy, PartialEq, Eq, Structural)]
pub enum HarnessError {
    /// The byte range of the declaration does not lie within its file.
    RangeOutside,
    /// The bytes of the declaration are not valid UTF-8.
    NotText,
    /// A test function has no name to call it by.
    Unnamed,
}

/// One top-level declaration of a parsed file.
#[derive(Debug)]
pub struct Declaration {
    pub kind: DeclarationKind,
    /// The name under which the declaration is displayed, where it has one.
    pub display_name: Option<String>,
    /// The documentation comment attached to the declaration, where it has one.
    pub comment: Option<String>,
    /// Whether the declaration comes from a system header.
    pub in_system_header: bool,
    /// The offset of the first byte of the declaration in its file.
    pub start: usize,
    /// The offset one past the last byte of the declaration in its file.
    pub end: usize,
}

/// The bytes of a file and the declarations that lie in it.
#[derive(Debug)]
pub struct ParsedFile {
    pub content: Vec<u8>,
    pub declarations: Vec<Declaration>,
}

/// The mathematical content of a [`Declaration`].
pub struct DeclarationView {
    pub kind: DeclarationKind,
    pub display_name: Option<Seq<char>>,
    pub comment: Option<Seq<char>>,
    pub in_system_header: bool,
    pub start: int,
    pub end: int,
}

/// The mathematical content of a [`ParsedFile`].
pub struct ParsedFileView {
    pub content: Seq<u8>,
    pub declarations: Seq<DeclarationView>,
}

/// The mathematical content of an [`Item`].
pub struct ItemView {
    pub name: Option<Seq<char>>,
    pub comment: Option<Seq<char>>,
    pub text: Seq<char>,
    pub kind: ItemType,
}

/// The mathematical content of a [`Test`].
pub struct TestView {
    pub name: Seq<char>,
    pub entities: Seq<ItemView>,
    pub dir: Seq<char>,
}

/// A single harvested fragment: its source text, its kind and, for a
/// function, the name to call it by.
#[derive(Debug)]
pub struct Item {
    name: Option<String>,
    comment: Option<String>,
    full_text: String,
    kind: ItemType,
}

/// The harness of a project: the fragments harvested for it, none of them twice.
#[derive(Debug)]
pub struct Test {
    name: String,
    entities: Vec<Item>,
    dir: String,
}

/// The generated unit and the file it belongs in.
#[derive(Debug)]
pub struct GeneratedUnit {
    pub path: String,
    pub text: String,
}

impl View for Declaration {
    type V = DeclarationView;

    open spec fn view(&self) -> DeclarationView {
        DeclarationView {
            kind: self.kind,
            display_name: opt_text(self.display_name),
            comment: opt_text(self.comment),
            in_system_header: self.in_system_header,
            start: self.start as int,
            end: self.end as int,
        }
    }
}

pub open spec fn declaration_views(declarations: Seq<Declaration>) -> Seq<DeclarationView> {
    declarations.map_values(|d: Declaration| d@)
}

impl View for ParsedFile {
    type V = ParsedFileView;

    open spec fn view(&self) -> ParsedFileView {
        ParsedFileView {
            content: self.content@,
            declarations: declaration_views(self.declarations@),
        }
    }
}

pub open spec fn file_views(files: Seq<ParsedFile>) -> Seq<ParsedFileView> {
    files.map_values(|f: ParsedFile| f@)
}

impl View for Item {
    type V = ItemView;

    closed spec fn view(&self) -> ItemView {
        ItemView {
            name: opt_text(self.name),
            comment: opt_text(self.comment),
            text: self.full_text@,
            kind: self.kind,
        }
    }
}

pub open spec fn item_views(items: Seq<Item>) -> Seq<ItemView> {
    items.map_values(|i: Item| i@)
}

impl View for Test {
    type V = TestView;

    closed spec fn view(&self) -> TestView {
        TestView { name: self.name@, entities: item_views(self.entities@), dir: self.dir@ }
    }
}

/// The fragment that the bytes from `start` up to `end` of `content` make,
/// or why they make none.
pub open spec fn extract_item(
    name: Option<Seq<char>>,
    comment: Option<Seq<char>>,
    content: Seq<u8>,
    start: int,
    end: int,
    kind: ItemType,
) -> Result<ItemView, HarnessError> {
    if !(0 <= start <= end <= content.len()) {
        Err(HarnessError::RangeOutside)
    } else if !valid_utf8(content.subrange(start, end)) {
        Err(HarnessError::NotText)
    } else if kind == ItemType::FunctionDecl && name is None {
        Err(HarnessError::Unnamed)
    } else {
        Ok(ItemView { name, comment, text: decode_utf8(content.subrange(start, end)), kind })
    }
}

/// Whether a declaration is harvested. A function is, where its comment
/// is the marker; a directive is, unless it comes from a system header.
pub open spec fn is_kept(declaration: DeclarationView, marker: Seq<char>) -> bool {
    match declaration.kind {
        DeclarationKind::FunctionDecl => declaration.comment == Some(marker),
        DeclarationKind::UsingDirective => !declaration.in_system_header,
        DeclarationKind::InclusionDirective => !declaration.in_system_header,
        DeclarationKind::Other => false,
    }
}

/// The kind of fragment that a kept declaration becomes.
pub open spec fn item_kind_of(kind: DeclarationKind) -> ItemType {
    match kind {
        DeclarationKind::FunctionDecl => ItemType::FunctionDecl,
        DeclarationKind::UsingDirective => ItemType::UsingDirective,
        _ => ItemType::InclusionDirective,
    }
}

/// The fragment of one kept declaration.
pub open spec fn harvest_declaration(content: Seq<u8>, declaration: DeclarationView) -> Result<
    ItemView,
    HarnessError,
> {
    extract_item(
        declaration.display_name,
        declaration.comment,
        content,
        declaration.start,
        declaration.end,
        item_kind_of(declaration.kind),
    )
}

/// The fragments of the kept declarations of one file, in their order, or
/// the error of the first of them that cannot be harvested.
pub open spec fn harvest_declarations(
    content: Seq<u8>,
    declarations: Seq<DeclarationView>,
    marker: Seq<char>,
) -> Result<Seq<ItemView>, HarnessError>
    decreases declarations.len(),
{
    if declarations.len() == 0 {
        Ok(Seq::empty())
    } else {
        match harvest_declarations(content, declarations.drop_last(), marker) {
            Err(error) => Err(error),
            Ok(items) => if is_kept(declarations.last(), marker) {
                match harvest_declaration(content, declarations.last()) {
                    Ok(item) => Ok(items.push(item)),
                    Err(error) => Err(error),
                }
            } else {
                Ok(items)
            },
        }
    }
}

/// The fragments of all files, file after file, or the first error.
pub open spec fn harvest(files: Seq<ParsedFileView>, marker: Seq<char>) -> Result<
    Seq<ItemView>,
    HarnessError,
>
    decreases files.len(),
{
    if files.len() == 0 {
        Ok(Seq::empty())
    } else {
        match harvest(files.drop_last(), marker) {
            Err(error) => Err(error),
            Ok(items) => match harvest_declarations(
                files.last().content,
                files.last().declarations,
                marker,
            ) {
                Ok(more) => Ok(items + more),
                Err(error) => Err(error),
            },
        }
    }
}

/// Two fragments are the same fragment when they agree in kind and text.
pub open spec fn same_item(a: ItemView, b: ItemView) -> bool {
    a.kind == b.kind && a.text == b.text
}

/// Whether `items` holds a fragment that is the same as `item`.
pub open spec fn holds_item(items: Seq<ItemView>, item: ItemView) -> bool {
    exists|i: int| 0 <= i < items.len() && same_item(#[trigger] items[i], item)
}

/// The fragments of `items` with every repetition left out: of fragments
/// that are the same, the first stays, and the order is kept.
pub open spec fn unique_items(items: Seq<ItemView>) -> Seq<ItemView>
    decreases items.len(),
{
    if items.len() == 0 {
        Seq::empty()
    } else if holds_item(items.drop_last(), items.last()) {
        unique_items(items.drop_last())
    } else {
        unique_items(items.drop_last()).push(items.last())
    }
}

/// No fragment of `items` is the same as another.
pub open spec fn no_repeats(items: Seq<ItemView>) -> bool {
    forall|i: int, j: int|
        0 <= i < j < items.len() ==> !same_item(#[trigger] items[i], #[trigger] items[j])
}

/// The number by which a kind is told from the others.
pub open spec fn kind_code(kind: ItemType) -> u8 {
    match kind {
        ItemType::FunctionDecl => 0,
        ItemType::UsingDirective => 1,
        ItemType::InclusionDirective => 2,
    }
}

pub(crate) proof fn lemma_item_views_push(items: Seq<Item>, item: Item)
    ensures
        item_views(items.push(item)) == item_views(items).push(item@),
{
    assert(item_views(items.push(item)) =~= item_views(items).push(item@));
}

/// Calls `String::from_utf8` of the standard library: the bytes are
/// accepted exactly when they are valid UTF-8, and the string returned is
/// then the text that they encode.
#[verifier::external_body]
fn text_of_bytes(bytes: Vec<u8>) -> (text: Option<String>)
    ensures
        text is Some <==> valid_utf8(bytes@),
        text is Some ==> text->0@ == decode_utf8(bytes@),
{
    String::from_utf8(bytes).ok()
}

impl Declaration {
    /// Whether the declaration is harvested for the marker given.
    pub fn is_kept(&self, marker: &str) -> (kept: bool)
        ensures
            kept == is_kept(self@, marker@),
    {
        match self.kind {
            DeclarationKind::FunctionDecl => match &self.comment {
                Some(comment) => text_is(comment.as_str(), marker),
                None => false,
            },
            DeclarationKind::UsingDirective => !self.in_system_header,
            DeclarationKind::InclusionDirective => !self.in_system_header,
            DeclarationKind::Other => false,
        }
    }
}

impl Item {
    /// A function has a name to call it by.
    #[verifier::type_invariant]
    spec fn callable(&self) -> bool {
        self.kind == ItemType::FunctionDecl ==> self.name is Some
    }

    /// The fragment that the bytes from `start` up to `end` of `content`
    /// make. The range must lie within the content and hold valid UTF-8,
    /// and a function must have a name.
    pub fn new(
        name: Option<String>,
        comment: Option<String>,
        content: &[u8],
        start: usize,
        end: usize,
        kind: ItemType,
    ) -> (made: Result<Self, HarnessError>)
        ensures
            match extract_item(
                opt_text(name),
                opt_text(comment),
                content@,
                start as int,
                end as int,
                kind,
            ) {
                Ok(item) => made is Ok && made->Ok_0@ == item,
                Err(error) => made == Err::<Self, HarnessError>(error),
            },
    {
        if start > end || end > content.len() {
            return Err(HarnessError::RangeOutside);
        }
        let bytes = slice_to_vec(slice_subrange(content, start, end));
        match text_of_bytes(bytes) {
            None => Err(HarnessError::NotText),
            Some(full_text) => {
                if kind == ItemType::FunctionDecl && name.is_none() {
                    Err(HarnessError::Unnamed)
                } else {
                    Ok(Self { name, comment, full_text, kind })
                }
            },
        }
    }

    pub fn get_type(&self) -> (kind: ItemType)
        ensures
            kind == self@.kind,
    {
        self.kind
    }

    pub fn get_text(&self) -> (text: String)
        ensures
            text@ == self@.text,
    {
        self.full_text.clone()
    }

    pub fn get_name(&self) -> (name: Option<String>)
        ensures
            opt_text(name) == self@.name,
            self@.kind == ItemType::FunctionDecl ==> name is Some,
    {
        proof {
            use_type_invariant(self);
        }
        clone_opt_text(&self.name)
    }

    /// The documentation comment that was attached to the declaration.
    pub fn get_comment(&self) -> (comment: Option<String>)
        ensures
            opt_text(comment) == self@.comment,
    {
        clone_opt_text(&self.comment)
    }

    /// What makes two fragments the same: the kind, as its number, and the text.
    pub fn identity(&self) -> (key: (u8, String))
        ensures
            key.0 == kind_code(self@.kind),
            key.1@ == self@.text,
    {
        let code: u8 = match self.kind {
            ItemType::FunctionDecl => 0,
            ItemType::UsingDirective => 1,
            ItemType::InclusionDirective => 2,
        };
        (code, self.full_text.clone())
    }
}

impl Clone for Item {
    fn clone(&self) -> (copy: Self)
        ensures
            copy@ == self@,
    {
        proof {
            use_type_invariant(self);
        }
        Item {
            name: clone_opt_text(&self.name),
            comment: clone_opt_text(&self.comment),
            full_text: self.full_text.clone(),
            kind: self.kind,
        }
    }
}

/// Calls `Itertools::unique_by` of itertools on the items, with
/// [`Item::identity`] as the key. It yields the items in their order and
/// leaves out each one whose key an earlier item had: the first of the
/// items with one key is the one that stays.
#[verifier::external_body]
fn unique_by_identity(items: Vec<Item>) -> (kept: Vec<Item>)
    ensures
        item_views(kept@) == unique_items(item_views(items@)),
{
    items.into_iter().unique_by(|item| item.identity()).collect()
}

/// The lines that the fragments of one kind contribute to the unit: for
/// each of them, in order, `before`, then its name or its text, then `after`.
pub open spec fn lines_of(
    items: Seq<ItemView>,
    kind: ItemType,
    before: Seq<char>,
    by_name: bool,
    after: Seq<char>,
) -> Seq<char>
    decreases items.len(),
{
    if items.len() == 0 {
        Seq::empty()
    } else {
        let earlier = lines_of(items.drop_last(), kind, before, by_name, after);
        let item = items.last();
        if item.kind == kind {
            earlier + before + (if by_name {
                item.name->0
            } else {
                item.text
            }) + after
        } else {
            earlier
        }
    }
}

/// The generated unit: the inclusion directives, one on a line; the using
/// directives, each ended by a semicolon; a declaration of every test
/// function; and `main`, which calls every test function in the order in
/// which the functions were collected.
pub open spec fn render_unit(items: Seq<ItemView>) -> Seq<char> {
    lines_of(items, ItemType::InclusionDirective, Seq::empty(), false, "\n"@) + lines_of(
        items,
        ItemType::UsingDirective,
        Seq::empty(),
        false,
        ";\n"@,
    ) + lines_of(items, ItemType::FunctionDecl, "int "@, true, ";\n"@) + "int main(){\n"@
        + lines_of(items, ItemType::FunctionDecl, "\t"@, true, ";\n"@) + "}\n"@
}

/// The file that the generated unit of a harness belongs in.
pub open spec fn unit_path(harness: TestView) -> Seq<char> {
    harness.dir + "/target/test_"@ + harness.name + ".cpp"@
}

/// The comment that marks a function as a test.
pub open spec fn test_marker() -> Seq<char> {
    "///test"@
}

fn append_lines(
    out: &mut String,
    items: &Vec<Item>,
    kind: ItemType,
    before: &str,
    by_name: bool,
    after: &str,
)
    requires
        by_name ==> kind == ItemType::FunctionDecl,
    ensures
        final(out)@ == old(out)@ + lines_of(item_views(items@), kind, before@, by_name, after@),
{
    let ghost all = item_views(items@);
    let mut i: usize = 0;
    proof {
        assert(old(out)@ + lines_of(all.take(0), kind, before@, by_name, after@) =~= old(out)@);
    }
    while i < items.len()
        invariant
            i <= items.len(),
            by_name ==> kind == ItemType::FunctionDecl,
            all == item_views(items@),
            out@ == old(out)@ + lines_of(all.take(i as int), kind, before@, by_name, after@),
        decreases items.len() - i,
    {
        let ghost earlier = lines_of(all.take(i as int), kind, before@, by_name, after@);
        proof {
            assert(all.take(i + 1).drop_last() =~= all.take(i as int));
            assert(all.take(i + 1).last() == items@[i as int]@);
        }
        if items[i].get_type() == kind {
            let body = if by_name {
                match items[i].get_name() {
                    Some(name) => name,
                    None => String::new(),
                }
            } else {
                items[i].get_text()
            };
            out.append(before);
            out.append(body.as_str());
            out.append(after);
            proof {
                assert(out@ =~= old(out)@ + (earlier + before@ + body@ + after@));
            }
        }
        i += 1;
    }
    proof {
        assert(all.take(i as int) =~= all);
    }
}

impl Test {
    /// No fragment is held twice.
    #[verifier::type_invariant]
    spec fn deduplicated(&self) -> bool {
        no_repeats(item_views(self.entities@))
    }

    /// The directories whose files are parsed for the harness of the
    /// project rooted at `path`: its sources and its tests.
    pub fn source_roots(path: &str) -> (roots: Vec<String>)
        ensures
            roots@.len() == 2,
            roots@[0]@ == path@ + "/src"@,
            roots@[1]@ == path@ + "/tests"@,
    {
        let mut roots: Vec<String> = Vec::new();
        roots.push(concat(path, "/src"));
        roots.push(concat(path, "/tests"));
        roots
    }

    /// Harvests the harness of `project`, rooted at `path`, from the
    /// parsed files: the functions whose comment is `ident`, and the
    /// directives that do not come from system headers. The first
    /// declaration that cannot be harvested ends the harvest with its error.
    pub fn from_file(project: &Project, path: &str, ident: &str, files: &Vec<ParsedFile>) -> (made:
        Result<Self, HarnessError>)
        ensures
            match harvest(file_views(files@), ident@) {
                Ok(items) => made is Ok && made->Ok_0@ == (TestView {
                    name: project@.name,
                    entities: unique_items(items),
                    dir: path@,
                }),
                Err(error) => made == Err::<Self, HarnessError>(error),
            },
    {
        let mut funcs: Vec<Item> = Vec::new();
        let ghost all = file_views(files@);
        let mut f: usize = 0;
        proof {
            assert(item_views(funcs@) =~= Seq::<ItemView>::empty());
        }
        while f < files.len()
            invariant
                f <= files.len(),
                all == file_views(files@),
                harvest(all.take(f as int), ident@) == Ok::<Seq<ItemView>, HarnessError>(
                    item_views(funcs@),
                ),
            decreases files.len() - f,
        {
            let file = &files[f];
            let ghost declarations = declaration_views(file.declarations@);
            let ghost before = item_views(funcs@);
            proof {
                assert(all.take(f + 1).drop_last() =~= all.take(f as int));
                assert(all.take(f + 1).last() == file@);
                assert(before + Seq::<ItemView>::empty() =~= before);
            }
            let ghost mut more: Seq<ItemView> = Seq::empty();
            let mut d: usize = 0;
            while d < file.declarations.len()
                invariant
                    d <= file.declarations.len(),
                    f < files.len(),
                    all == file_views(files@),
                    *file == files@[f as int],
                    harvest(all.take(f as int), ident@) is Ok,
                    declarations == declaration_views(file.declarations@),
                    harvest_declarations(file.content@, declarations.take(d as int), ident@)
                        == Ok::<Seq<ItemView>, HarnessError>(more),
                    item_views(funcs@) == before + more,
                decreases file.declarations.len() - d,
            {
                let declaration = &file.declarations[d];
                proof {
                    assert(declarations.take(d + 1).drop_last() =~= declarations.take(d as int));
                    assert(declarations.take(d + 1).last() == declaration@);
                }
                if declaration.is_kept(ident) {
                    let kind = match declaration.kind {
                        DeclarationKind::FunctionDecl => ItemType::FunctionDecl,
                        DeclarationKind::UsingDirective => ItemType::UsingDirective,
                        _ => ItemType::InclusionDirective,
                    };
                    let made = Item::new(
                        clone_opt_text(&declaration.display_name),
                        clone_opt_text(&declaration.comment),
                        file.content.as_slice(),
                        declaration.start,
                        declaration.end,
                        kind,
                    );
                    match made {
                        Ok(item) => {
                            proof {
                                lemma_item_views_push(funcs@, item);
                                assert((before + more).push(item@) =~= before + more.push(
                                    item@,
                                ));
                                more = more.push(item@);
                            }
                            funcs.push(item);
                        },
                        Err(error) => {
                            proof {
                                assert(declarations.len() == file.declarations@.len());
                                assert(all.len() == files@.len());
                                assert(all[f as int] == file@);
                                lemma_harvest_fails_at(
                                    file.content@,
                                    declarations,
                                    ident@,
                                    d as int,
                                );
                                lemma_harvest_fails_in(all, ident@, f as int);
                            }
                            return Err(error);
                        },
                    }
                }
                d += 1;
            }
            proof {
                assert(declarations.take(d as int) =~= declarations);
            }
            f += 1;
        }
        proof {
            assert(all.take(f as int) =~= all);
        }
        let entities = unique_by_identity(funcs);
        proof {
            lemma_unique_has_no_repeats(harvest(all, ident@)->Ok_0);
        }
        Ok(Self { name: project.get_name(), entities, dir: String::from_str(path) })
    }

    /// The fragments of the harness, none of them twice.
    pub fn get_entities(&self) -> (entities: Vec<Item>)
        ensures
            item_views(entities@) == self@.entities,
            no_repeats(self@.entities),
    {
        proof {
            use_type_invariant(self);
        }
        let mut entities: Vec<Item> = Vec::new();
        let mut i: usize = 0;
        proof {
            assert(item_views(entities@) =~= item_views(self.entities@.take(0)));
        }
        while i < self.entities.len()
            invariant
                i <= self.entities.len(),
                item_views(entities@) == item_views(self.entities@.take(i as int)),
            decreases self.entities.len() - i,
        {
            let item = self.entities[i].clone();
            proof {
                lemma_item_views_push(entities@, item);
                lemma_item_views_push(self.entities@.take(i as int), self.entities@[i as int]);
                assert(self.entities@.take(i + 1) =~= self.entities@.take(i as int).push(
                    self.entities@[i as int],
                ));
            }
            entities.push(item);
            i += 1;
        }
        proof {
            assert(self.entities@.take(i as int) =~= self.entities@);
        }
        entities
    }

    /// Adds the fragments of `second` to the harness, which is how the
    /// harvests of several directories are brought together. A fragment
    /// that the harness holds already is not added again. `second` is
    /// left empty.
    pub fn append(&mut self, second: &mut Vec<Item>)
        ensures
            final(self)@ == (TestView {
                name: old(self)@.name,
                entities: unique_items(old(self)@.entities + item_views(old(second)@)),
                dir: old(self)@.dir,
            }),
            final(second)@.len() == 0,
    {
        let mut all = self.get_entities();
        proof {
            assert(item_views(all@) + item_views(second@) =~= item_views(all@ + second@));
            lemma_unique_has_no_repeats(item_views(all@ + second@));
        }
        all.append(second);
        self.entities = unique_by_identity(all);
    }

    /// The file that the generated unit belongs in.
    pub fn main_path(&self) -> (path: String)
        ensures
            path@ == unit_path(self@),
    {
        concat(self.dir.as_str(), "/target/test_").concat(self.name.as_str()).concat(".cpp")
    }

    /// Writes out the unit whose `main` calls each test function.
    pub fn build_main(&self) -> (unit: String)
        ensures
            unit@ == render_unit(self@.entities),
    {
        let mut unit = String::new();
        append_lines(&mut unit, &self.entities, ItemType::InclusionDirective, "", false, "\n");
        append_lines(&mut unit, &self.entities, ItemType::UsingDirective, "", false, ";\n");
        append_lines(&mut unit, &self.entities, ItemType::FunctionDecl, "int ", true, ";\n");
        unit.append("int main(){\n");
        append_lines(&mut unit, &self.entities, ItemType::FunctionDecl, "\t", true, ";\n");
        unit.append("}\n");
        proof {
            reveal_strlit("");
            assert(""@ =~= Seq::<char>::empty());
            assert(unit@ =~= render_unit(self@.entities));
        }
        unit
    }
}

/// Harvests the tests of `project`, rooted in the current directory, from
/// the parsed files, and writes out the unit that runs them.
pub fn create_test(project: &Project, files: &Vec<ParsedFile>) -> (made: Result<
    GeneratedUnit,
    HarnessError,
>)
    ensures
        match harvest(file_views(files@), test_marker()) {
            Ok(items) => made is Ok && made->Ok_0.text@ == render_unit(unique_items(items))
                && made->Ok_0.path@ == "."@ + "/target/test_"@ + project@.name + ".cpp"@,
            Err(error) => made == Err::<GeneratedUnit, HarnessError>(error),
        },
{
    match Test::from_file(project, ".", "///test", files) {
        Ok(harness) => Ok(GeneratedUnit { path: harness.main_path(), text: harness.build_main() }),
        Err(error) => Err(error),
    }
}

proof fn lemma_harvest_fails_at(
    content: Seq<u8>,
    declarations: Seq<DeclarationView>,
    marker: Seq<char>,
    d: int,
)
    requires
        0 <= d < declarations.len(),
        harvest_declarations(content, declarations.take(d), marker) is Ok,
        is_kept(declarations[d], marker),
        harvest_declaration(content, declarations[d]) is Err,
    ensures
        harvest_declarations(content, declarations, marker) == Err::<
            Seq<ItemView>,
            HarnessError,
        >(harvest_declaration(content, declarations[d])->Err_0),
    decreases declarations.len() - d,
{
    assert(declarations.take(d + 1).drop_last() =~= declarations.take(d));
    assert(declarations.take(d + 1).last() == declarations[d]);
    lemma_harvest_error_stays(content, declarations, marker, d + 1);
}

proof fn lemma_harvest_error_stays(
    content: Seq<u8>,
    declarations: Seq<DeclarationView>,
    marker: Seq<char>,
    n: int,
)
    requires
        0 <= n <= declarations.len(),
        harvest_declarations(content, declarations.take(n), marker) is Err,
    ensures
        harvest_declarations(content, declarations, marker) == harvest_declarations(
            content,
            declarations.take(n),
            marker,
        ),
    decreases declarations.len() - n,
{
    if n == declarations.len() {
        assert(declarations.take(n) =~= declarations);
    } else {
        assert(declarations.take(n + 1).drop_last() =~= declarations.take(n));
        lemma_harvest_error_stays(content, declarations, marker, n + 1);
    }
}

proof fn lemma_harvest_fails_in(files: Seq<ParsedFileView>, marker: Seq<char>, f: int)
    requires
        0 <= f < files.len(),
        harvest(files.take(f), marker) is Ok,
        harvest_declarations(files[f].content, files[f].declarations, marker) is Err,
    ensures
        harvest(files, marker) == Err::<Seq<ItemView>, HarnessError>(
            harvest_declarations(files[f].content, files[f].declarations, marker)->Err_0,
        ),
{
    assert(files.take(f + 1).drop_last() =~= files.take(f));
    assert(files.take(f + 1).last() == files[f]);
    lemma_files_error_stays(files, marker, f + 1);
}

proof fn lemma_files_error_stays(files: Seq<ParsedFileView>, marker: Seq<char>, n: int)
    requires
        0 <= n <= files.len(),
        harvest(files.take(n), marker) is Err,
    ensures
        harvest(files, marker) == harvest(files.take(n), marker),
    decreases files.len() - n,
{
    if n == files.len() {
        assert(files.take(n) =~= files);
    } else {
        assert(files.take(n + 1).drop_last() =~= files.take(n));
        lemma_files_error_stays(files, marker, n + 1);
    }
}

proof fn lemma_harvest_append(a: Seq<ParsedFileView>, b: Seq<ParsedFileView>, marker: Seq<char>)
    ensures
        harvest(a + b, marker) == match harvest(a, marker) {
            Err(error) => Err::<Seq<ItemView>, HarnessError>(error),
            Ok(first) => match harvest(b, marker) {
                Err(error) => Err(error),
                Ok(second) => Ok(first + second),
            },
        },
    decreases b.len(),
{
    if b.len() == 0 {
        assert(a + b =~= a);
        if harvest(a, marker) is Ok {
            assert(harvest(a, marker)->Ok_0 + Seq::<ItemView>::empty() =~= harvest(
                a,
                marker,
            )->Ok_0);
        }
    } else {
        lemma_harvest_append(a, b.drop_last(), marker);
        assert((a + b).drop_last() =~= a + b.drop_last());
        assert((a + b).last() == b.last());
        let last = harvest_declarations(b.last().content, b.last().declarations, marker);
        if harvest(a, marker) is Ok && harvest(b.drop_last(), marker) is Ok && last is Ok {
            let first = harvest(a, marker)->Ok_0;
            let middle = harvest(b.drop_last(), marker)->Ok_0;
            assert((first + middle) + last->Ok_0 =~= first + (middle + last->Ok_0));
        }
    }
}

/// Harvesting the same files a second time adds nothing: the harness of
/// the files given twice is the harness of the files.
pub proof fn lemma_harvest_twice(files: Seq<ParsedFileView>, marker: Seq<char>)
    requires
        harvest(files, marker) is Ok,
    ensures
        harvest(files + files, marker) is Ok,
        unique_items(harvest(files + files, marker)->Ok_0) == unique_items(
            harvest(files, marker)->Ok_0,
        ),
{
    let items = harvest(files, marker)->Ok_0;
    lemma_harvest_append(files, files, marker);
    assert forall|i: int| 0 <= i < items.len() implies holds_item(items, #[trigger] items[i]) by {
        assert(same_item(items[i], items[i]));
    }
    lemma_unique_absorbs(items, items);
}

/// What is left after the repetitions are taken out holds exactly the
/// fragments that were there before, each of them once.
pub proof fn lemma_unique_has_no_repeats(items: Seq<ItemView>)
    ensures
        no_repeats(unique_items(items)),
        forall|item: ItemView|
            holds_item(unique_items(items), item) <==> holds_item(items, item),
    decreases items.len(),
{
    let unique = unique_items(items);
    if items.len() > 0 {
        let init = items.drop_last();
        let last = items.last();
        lemma_unique_has_no_repeats(init);
        assert forall|item: ItemView| holds_item(unique, item) <==> holds_item(items, item) by {
            if holds_item(items, item) {
                let i = choose|i: int| 0 <= i < items.len() && same_item(items[i], item);
                if i < init.len() {
                    assert(same_item(init[i], item));
                    assert(holds_item(init, item));
                    let k = choose|k: int|
                        0 <= k < unique_items(init).len() && same_item(
                            unique_items(init)[k],
                            item,
                        );
                    assert(same_item(unique[k], item));
                } else if holds_item(init, last) {
                    let j = choose|j: int| 0 <= j < init.len() && same_item(init[j], last);
                    assert(same_item(init[j], item));
                    assert(holds_item(init, item));
                    let k = choose|k: int|
                        0 <= k < unique_items(init).len() && same_item(
                            unique_items(init)[k],
                            item,
                        );
                    assert(same_item(unique[k], item));
                } else {
                    assert(same_item(unique[unique.len() - 1], item));
                }
            }
            if holds_item(unique, item) {
                let k = choose|k: int| 0 <= k < unique.len() && same_item(unique[k], item);
                if k < unique_items(init).len() {
                    assert(same_item(unique_items(init)[k], item));
                    assert(holds_item(unique_items(init), item));
                    assert(holds_item(init, item));
                    let i = choose|i: int| 0 <= i < init.len() && same_item(init[i], item);
                    assert(same_item(items[i], item));
                } else {
                    assert(same_item(items[items.len() - 1], item));
                }
            }
        }
        assert forall|i: int, j: int| 0 <= i < j < unique.len() implies !same_item(
            #[trigger] unique[i],
            #[trigger] unique[j],
        ) by {
            if j == unique_items(init).len() {
                if same_item(unique[i], unique[j]) {
                    assert(same_item(unique_items(init)[i], last));
                    assert(holds_item(unique_items(init), last));
                }
            }
        }
    }
}

/// Taking the repetitions out of what has none changes nothing.
pub proof fn lemma_unique_of_distinct(items: Seq<ItemView>)
    requires
        no_repeats(items),
    ensures
        unique_items(items) == items,
    decreases items.len(),
{
    if items.len() > 0 {
        let init = items.drop_last();
        assert(no_repeats(init)) by {
            assert forall|i: int, j: int| 0 <= i < j < init.len() implies !same_item(
                #[trigger] init[i],
                #[trigger] init[j],
            ) by {
                assert(init[i] == items[i] && init[j] == items[j]);
            }
        }
        lemma_unique_of_distinct(init);
        if holds_item(init, items.last()) {
            let i = choose|i: int| 0 <= i < init.len() && same_item(init[i], items.last());
            assert(same_item(items[i], items[items.len() - 1]));
        }
        assert(unique_items(items) =~= items);
    }
}

/// Taking the repetitions out is idempotent: done a second time it changes nothing.
pub proof fn lemma_unique_idempotent(items: Seq<ItemView>)
    ensures
        unique_items(unique_items(items)) == unique_items(items),
{
    lemma_unique_has_no_repeats(items);
    lemma_unique_of_distinct(unique_items(items));
}

/// Fragments that are there already add nothing: harvesting the same
/// fragments a second time leaves the harness as it was.
pub proof fn lemma_unique_absorbs(items: Seq<ItemView>, again: Seq<ItemView>)
    requires
        forall|i: int| 0 <= i < again.len() ==> holds_item(items, #[trigger] again[i]),
    ensures
        unique_items(items + again) == unique_items(items),
    decreases again.len(),
{
    if again.len() == 0 {
        assert(items + again =~= items);
    } else {
        let init = again.drop_last();
        let last = again.last();
        assert forall|i: int| 0 <= i < init.len() implies holds_item(items, #[trigger] init[i]) by {
            assert(init[i] == again[i]);
        }
        lemma_unique_absorbs(items, init);
        assert((items + again).drop_last() =~= items + init);
        assert((items + again).last() == last);
        assert(holds_item(items, again[again.len() - 1]));
        let i = choose|i: int| 0 <= i < items.len() && same_item(items[i], last);
        assert(same_item((items + init)[i], last));
    }
}

} // verus!
