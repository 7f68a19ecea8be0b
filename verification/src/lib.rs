use vstd::prelude::*;
use vstd::string::StrSliceExecFns;
use vstd::string::StringExecFns;

mod component;
mod laws;
mod lexer;
mod parser;
mod stream;
mod text;
mod token;

pub use component::{
    Component, ComponentSpec, Key, NamedProps, NamedPropsSpec, ObjectType, PrimitiveType, Props,
    PropsSpec, TSXContent, Type, TypeSpec, entries_sorted, lemma_obj_insert_sorted,
    lemma_rendering_deterministic, object_sample, object_str, spec_obj_insert, type_sample,
    type_str,
};
pub use laws::{export_free, lemma_no_export_yields_none, no_export_tokens};
pub use lexer::Lexer;
pub use parser::{
    AliasTable, ComponentPartsParser, PState, ParseError, ParseErrorSpec,
    lemma_alias_claim_transfers, lemma_tbl_claim_unique, lemma_tbl_insert_unique, spec_parse,
    spec_search, spec_tbl_claim, spec_tbl_contains, spec_tbl_insert, tbl_unique,
};
pub use token::TSXToken;
pub use token::TSXTokenType;

use crate::component::{spec_fill_sample, spec_props_str};
use crate::lexer::find_char;
use crate::text::str_eq;

verus! {

/// Index of the last `/` of `p`, or -1 when there is none: the file name
/// starts just after it.
pub open spec fn last_slash(p: Seq<char>) -> int
    decreases p.len(),
{
    if p.len() == 0 {
        -1
    } else if p[p.len() - 1] == '/' {
        p.len() - 1
    } else {
        last_slash(p.take(p.len() - 1))
    }
}

/// Index of the last `.` of `p`, or -1 when there is none.
pub open spec fn last_dot(p: Seq<char>) -> int
    decreases p.len(),
{
    if p.len() == 0 {
        -1
    } else if p[p.len() - 1] == '.' {
        p.len() - 1
    } else {
        last_dot(p.take(p.len() - 1))
    }
}

/// A path names a storybook file when its file name's second dot-separated
/// piece is `stories` and the first piece is not empty.
pub open spec fn is_stories_spec(p: Seq<char>) -> bool {
    let s = last_slash(p) + 1;
    let d1 = find_char(p, s, '.');
    let d2 = find_char(p, d1 + 1, '.');
    d1 < p.len() && d1 > s && p.subrange(d1 + 1, d2) == "stories"@
}

/// A path names a plain component source file when it is not a storybook
/// file and its file name's extension (the text after its last dot, which
/// may not lead the name) is `tsx`.
pub open spec fn is_tsx_spec(p: Seq<char>) -> bool {
    let s = last_slash(p) + 1;
    let ld = last_dot(p);
    !is_stories_spec(p) && ld >= s + 1 && p.subrange(ld + 1, p.len() as int) == "tsx"@
}

proof fn lemma_last_slash_bounds(p: Seq<char>)
    ensures
        -1 <= last_slash(p) < p.len(),
    decreases p.len(),
{
    if p.len() > 0 && p[p.len() - 1] != '/' {
        lemma_last_slash_bounds(p.take(p.len() - 1));
    }
}

proof fn lemma_last_dot_bounds(p: Seq<char>)
    ensures
        -1 <= last_dot(p) < p.len(),
    decreases p.len(),
{
    if p.len() > 0 && p[p.len() - 1] != '.' {
        lemma_last_dot_bounds(p.take(p.len() - 1));
    }
}

/// Index just past the last `/`, found by scanning from the end.
fn name_start(path: &str) -> (r: usize)
    ensures
        r == last_slash(path@) + 1,
{
    let len: usize = path.unicode_len();
    let mut i: usize = len;
    proof {
        assert(path@.take(len as int) =~= path@);
    }
    while i > 0 && path.get_char(i - 1) != '/'
        invariant
            i <= len,
            len == path@.len(),
            last_slash(path@) == last_slash(path@.take(i as int)),
        decreases i,
    {
        proof {
            assert(path@.take(i as int).take(i - 1 as int) =~= path@.take(i - 1 as int));
        }
        i = i - 1;
    }
    proof {
        if i > 0 {
            assert(last_slash(path@.take(i as int)) == i - 1);
        } else {
            assert(path@.take(0) =~= Seq::<char>::empty());
        }
    }
    i
}

/// Index just past the last `.`, found by scanning from the end; 0 when
/// the path holds no dot.
fn dot_start(path: &str) -> (r: usize)
    ensures
        r == last_dot(path@) + 1,
{
    let len: usize = path.unicode_len();
    let mut i: usize = len;
    proof {
        assert(path@.take(len as int) =~= path@);
    }
    while i > 0 && path.get_char(i - 1) != '.'
        invariant
            i <= len,
            len == path@.len(),
            last_dot(path@) == last_dot(path@.take(i as int)),
        decreases i,
    {
        proof {
            assert(path@.take(i as int).take(i - 1 as int) =~= path@.take(i - 1 as int));
        }
        i = i - 1;
    }
    proof {
        if i > 0 {
            assert(last_dot(path@.take(i as int)) == i - 1);
        } else {
            assert(path@.take(0) =~= Seq::<char>::empty());
        }
    }
    i
}

/// First index at or after `start` holding `c`, or the end of the path.
fn find_char_from(path: &str, start: usize, c: char) -> (r: usize)
    requires
        start <= path@.len(),
    ensures
        r == find_char(path@, start as int, c),
        start <= r <= path@.len(),
{
    proof {
        crate::lexer::lemma_find_char_bounds(path@, start as int, c);
    }
    let len: usize = path.unicode_len();
    let mut j: usize = start;
    while j < len && path.get_char(j) != c
        invariant
            start <= j <= len,
            len == path@.len(),
            find_char(path@, j as int, c) == find_char(path@, start as int, c),
        decreases len - j,
    {
        j = j + 1;
    }
    j
}

/// Whether the path names a generated storybook file (`NAME.stories.*`).
pub fn is_stories(path: &str) -> (r: bool)
    ensures
        r == is_stories_spec(path@),
{
    proof {
        lemma_last_slash_bounds(path@);
    }
    let len: usize = path.unicode_len();
    let s: usize = name_start(path);
    let d1: usize = find_char_from(path, s, '.');
    if d1 >= len || d1 <= s {
        return false;
    }
    let d2: usize = find_char_from(path, d1 + 1, '.');
    let piece = path.substring_char(d1 + 1, d2);
    str_eq(piece, "stories")
}

/// Whether the path names a component source file the generator should
/// look at: extension `tsx`, and not itself a storybook file.
pub fn is_tsx(path: &str) -> (r: bool)
    ensures
        r == is_tsx_spec(path@),
{
    if is_stories(path) {
        return false;
    }
    proof {
        lemma_last_dot_bounds(path@);
        lemma_last_slash_bounds(path@);
    }
    let len: usize = path.unicode_len();
    let s: usize = name_start(path);
    let ds: usize = dot_start(path);
    if ds < 2 || ds - 2 < s {
        return false;
    }
    let ext = path.substring_char(ds, len);
    str_eq(ext, "tsx")
}

/// The fixed imports at the head of every generated storybook file.
pub open spec fn sb_import_libraries() -> Seq<char> {
    "import React from \"react\";\nimport { StoryFn } from \"@storybook/react\";"@
}

/// The import of the component under preview.
pub open spec fn sb_import_component(c: ComponentSpec) -> Seq<char> {
    "import { "@ + c.name + " } from \"./"@ + c.name + "\";"@
}

/// The default export naming the story and its component.
pub open spec fn sb_export_default(title: Seq<char>, c: ComponentSpec) -> Seq<char> {
    "export default {\n    title: \""@ + title + "\",\n    component: "@ + c.name + ",\n};"@
}

/// The story template, typed with the component's prop annotation.
pub open spec fn sb_template(c: ComponentSpec) -> Seq<char> {
    "const Template: StoryFn<"@ + spec_props_str(c.props) + "> = (args) => (\n  <"@ + c.name
        + " {...args} />\n);"@
}

/// The primary story, pre-filled with the sample prop values.
pub open spec fn sb_primary_sample(c: ComponentSpec) -> Seq<char> {
    "export const Primary = Template.bind({});\n\nPrimary.args = "@ + spec_fill_sample(c.props)
        + ";"@
}

/// The whole generated file.
pub open spec fn sb_file_content(title: Seq<char>, c: ComponentSpec) -> Seq<char> {
    sb_import_libraries() + "\n"@ + sb_import_component(c) + "\n\n"@ + sb_export_default(title, c)
        + "\n\n"@ + sb_template(c) + "\n\n"@ + sb_primary_sample(c) + "\n"@
}

/// A preview-stub ("storybook") document for one parsed component.
pub struct StoryBookContent {
    title: String,
    component: Component,
}

/// Mathematical value of a `StoryBookContent`.
pub struct StoryBookContentSpec {
    pub title: Seq<char>,
    pub component: ComponentSpec,
}

impl View for StoryBookContent {
    type V = StoryBookContentSpec;

    closed spec fn view(&self) -> StoryBookContentSpec {
        StoryBookContentSpec { title: self.title@, component: self.component@ }
    }
}

impl StoryBookContent {
    pub fn new(title: &str, component: Component) -> (r: StoryBookContent)
        ensures
            r@ == (StoryBookContentSpec { title: title@, component: component@ }),
    {
        StoryBookContent { title: title.to_owned(), component }
    }

    pub fn import_component(&self) -> (r: String)
        ensures
            r@ == sb_import_component(self@.component),
    {
        let mut r = String::from_str("import { ");
        r.append(self.component.name_str());
        r.append(" } from \"./");
        r.append(self.component.name_str());
        r.append("\";");
        r
    }

    pub fn import_libraries(&self) -> (r: &'static str)
        ensures
            r@ == sb_import_libraries(),
    {
        "import React from \"react\";\nimport { StoryFn } from \"@storybook/react\";"
    }

    pub fn export_default(&self) -> (r: String)
        ensures
            r@ == sb_export_default(self@.title, self@.component),
    {
        let mut r = String::from_str("export default {\n    title: \"");
        r.append(self.title.as_str());
        r.append("\",\n    component: ");
        r.append(self.component.name_str());
        r.append(",\n};");
        r
    }

    pub fn template(&self) -> (r: String)
        ensures
            r@ == sb_template(self@.component),
    {
        let mut r = String::from_str("const Template: StoryFn<");
        let props = self.component.props_str();
        r.append(props.as_str());
        r.append("> = (args) => (\n  <");
        r.append(self.component.name_str());
        r.append(" {...args} />\n);");
        r
    }

    pub fn primary_sample(&self) -> (r: String)
        ensures
            r@ == sb_primary_sample(self@.component),
    {
        let mut r = String::from_str(
            "export const Primary = Template.bind({});\n\nPrimary.args = ",
        );
        let sample = self.component.fill_sample();
        r.append(sample.as_str());
        r.append(";");
        r
    }

    pub fn to_file_content(&self) -> (r: String)
        ensures
            r@ == sb_file_content(self@.title, self@.component),
    {
        let mut r = String::from_str(self.import_libraries());
        r.append("\n");
        let part = self.import_component();
        r.append(part.as_str());
        r.append("\n\n");
        let part2 = self.export_default();
        r.append(part2.as_str());
        r.append("\n\n");
        let part3 = self.template();
        r.append(part3.as_str());
        r.append("\n\n");
        let part4 = self.primary_sample();
        r.append(part4.as_str());
        r.append("\n");
        r
    }
}

} // verus!
