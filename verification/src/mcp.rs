//! Model Context Protocol: the protocol version, resources and their
//! registry, tools and their registry, and the request methods a server
//! answers.

use vstd::prelude::*;
use crate::json::json_clone;
use crate::mediator::{entry_names, find_name, names_of, put_name, put_named};
use crate::multimap::{distinct_keys, has_key, key_index};
use crate::text::{string_push_str, to_owned_string};

verus! {

/// The protocol version spoken.
pub const MCP_VERSION: &'static str = "2024-11-05";

/// What a resource is, as listed.
#[derive(Debug, Clone, PartialEq, Eq)]
pub struct ResourceDefinition {
    pub uri: String,
    pub name: String,
    pub description: Option<String>,
    pub mime_type: Option<String>,
}

/// What reading a resource gives.
#[derive(Debug, Clone, PartialEq, Eq)]
pub struct ResourceContent {
    pub uri: String,
    pub mime_type: Option<String>,
    pub text: Option<String>,
    /// Binary content as base64 text.
    pub blob: Option<String>,
}

/// The answer to a resource read.
#[derive(Debug, Clone, PartialEq, Eq)]
pub struct ReadResourceResult {
    pub contents: Vec<ResourceContent>,
}

fn copy_opt(o: &Option<String>) -> (r: Option<String>)
    ensures
        r == *o,
{
    match o {
        Some(s) => Some(s.clone()),
        None => None,
    }
}

fn opt_str(o: &Option<String>) -> (r: Option<&str>)
    ensures
        match o {
            Some(s) => r matches Some(t) && t@ == s@,
            None => r is None,
        },
{
    match o {
        Some(s) => Some(s.as_str()),
        None => None,
    }
}

fn owned_opt(o: Option<&str>) -> (r: Option<String>)
    ensures
        match o {
            Some(s) => r matches Some(t) && t@ == s@,
            None => r is None,
        },
{
    match o {
        Some(s) => Some(to_owned_string(s)),
        None => None,
    }
}

/// The text of an optional string.
pub open spec fn str_opt(o: Option<&str>) -> Option<Seq<char>> {
    match o {
        Some(s) => Some(s@),
        None => None,
    }
}

/// The text of an optional owned string.
pub open spec fn string_opt(o: Option<String>) -> Option<Seq<char>> {
    match o {
        Some(s) => Some(s@),
        None => None,
    }
}

/// Something a server offers to be read.
pub trait Resource {
    /// Its identifier.
    spec fn uri_of(&self) -> Seq<char>;

    /// Its name.
    spec fn name_of(&self) -> Seq<char>;

    /// Its description, if any.
    spec fn description_of(&self) -> Option<Seq<char>>;

    /// Its MIME type, if known.
    spec fn mime_type_of(&self) -> Option<Seq<char>>;

    /// `r` is what reading it may give.
    spec fn gives(&self, r: Result<ResourceContent, String>) -> bool;

    /// Its identifier.
    fn uri(&self) -> (r: &str)
        ensures
            r@ == self.uri_of();

    /// Its name.
    fn name(&self) -> (r: &str)
        ensures
            r@ == self.name_of();

    fn description(&self) -> (r: Option<&str>)
        ensures
            str_opt(r) == self.description_of();

    fn mime_type(&self) -> (r: Option<&str>)
        ensures
            str_opt(r) == self.mime_type_of();

    /// Its content now.
    fn read(&self) -> (r: Result<ResourceContent, String>)
        ensures
            self.gives(r);
}

/// A resource of fixed text.
pub struct TextResource {
    uri: String,
    name: String,
    description: Option<String>,
    content: String,
}

impl TextResource {
    /// The identifier.
    pub closed spec fn uri_view(&self) -> Seq<char> {
        self.uri@
    }

    /// The name.
    pub closed spec fn name_view(&self) -> Seq<char> {
        self.name@
    }

    /// The text.
    pub closed spec fn content_view(&self) -> Seq<char> {
        self.content@
    }

    /// The description.
    pub closed spec fn description_view(&self) -> Option<String> {
        self.description
    }

    /// The resource `uri` named `name` holding `content`.
    pub fn new(uri: &str, name: &str, content: &str) -> (r: Self)
        ensures
            r.uri_view() == uri@,
            r.name_view() == name@,
            r.content_view() == content@,
            r.description_view() is None,
    {
        TextResource {
            uri: to_owned_string(uri),
            name: to_owned_string(name),
            description: None,
            content: to_owned_string(content),
        }
    }

    /// The same resource described by `description`.
    pub fn with_description(self, description: &str) -> (r: Self)
        ensures
            r.description_view() matches Some(d) && d@ == description@,
            r.uri_view() == self.uri_view(),
            r.name_view() == self.name_view(),
            r.content_view() == self.content_view(),
    {
        TextResource { description: Some(to_owned_string(description)), ..self }
    }
}

impl Resource for TextResource {
    open spec fn uri_of(&self) -> Seq<char> {
        self.uri_view()
    }

    open spec fn name_of(&self) -> Seq<char> {
        self.name_view()
    }

    open spec fn description_of(&self) -> Option<Seq<char>> {
        string_opt(self.description_view())
    }

    open spec fn mime_type_of(&self) -> Option<Seq<char>> {
        Some("text/plain"@)
    }

    open spec fn gives(&self, r: Result<ResourceContent, String>) -> bool {
        r matches Ok(c) && c.uri@ == self.uri_view() && (c.mime_type matches Some(m) && m@ == "text/plain"@)
            && (c.text matches Some(t) && t@ == self.content_view()) && c.blob is None
    }

    fn uri(&self) -> (r: &str)
        ensures
            r@ == self.uri_view(),
    {
        self.uri.as_str()
    }

    fn name(&self) -> (r: &str)
        ensures
            r@ == self.name_view(),
    {
        self.name.as_str()
    }

    fn description(&self) -> (r: Option<&str>)
        ensures
            str_opt(r) == string_opt(self.description_view()),
    {
        opt_str(&self.description)
    }

    fn mime_type(&self) -> (r: Option<&str>)
        ensures
            r matches Some(m) && m@ == "text/plain"@,
    {
        proof {
            reveal_strlit("text/plain");
        }
        Some("text/plain")
    }

    fn read(&self) -> (r: Result<ResourceContent, String>)
        ensures
            r matches Ok(c) && c.uri@ == self.uri_view() && (c.mime_type matches Some(m) && m@ == "text/plain"@)
                && (c.text matches Some(t) && t@ == self.content_view()) && c.blob is None,
    {
        Ok(ResourceContent {
            uri: self.uri.clone(),
            mime_type: Some(to_owned_string("text/plain")),
            text: Some(self.content.clone()),
            blob: None,
        })
    }
}

/// A resource backed by a file; the caller reads the file and hands its
/// text to `content_of`.
pub struct FileResource {
    uri: String,
    name: String,
    description: Option<String>,
    path: String,
    mime_type: Option<String>,
}

impl FileResource {
    /// The identifier.
    pub closed spec fn uri_view(&self) -> Seq<char> {
        self.uri@
    }

    /// The path of the file.
    pub closed spec fn path_view(&self) -> Seq<char> {
        self.path@
    }

    /// The name.
    pub closed spec fn name_view(&self) -> Seq<char> {
        self.name@
    }

    /// The MIME type.
    pub closed spec fn mime_view(&self) -> Option<String> {
        self.mime_type
    }

    /// The description.
    pub closed spec fn description_view(&self) -> Option<String> {
        self.description
    }

    /// The resource `uri` named `name` backed by the file at `path`.
    pub fn new(uri: &str, name: &str, path: &str) -> (r: Self)
        ensures
            r.uri_view() == uri@,
            r.name_view() == name@,
            r.path_view() == path@,
            r.mime_view() is None,
            r.description_view() is None,
    {
        FileResource {
            uri: to_owned_string(uri),
            name: to_owned_string(name),
            description: None,
            path: to_owned_string(path),
            mime_type: None,
        }
    }

    /// The same resource described by `description`.
    pub fn with_description(self, description: &str) -> (r: Self)
        ensures
            r.description_view() matches Some(d) && d@ == description@,
            r.uri_view() == self.uri_view(),
            r.name_view() == self.name_view(),
            r.path_view() == self.path_view(),
            r.mime_view() == self.mime_view(),
    {
        FileResource { description: Some(to_owned_string(description)), ..self }
    }

    /// The same resource of MIME type `mime_type`.
    pub fn with_mime_type(self, mime_type: &str) -> (r: Self)
        ensures
            r.mime_view() matches Some(m) && m@ == mime_type@,
            r.uri_view() == self.uri_view(),
            r.name_view() == self.name_view(),
            r.path_view() == self.path_view(),
            r.description_view() == self.description_view(),
    {
        FileResource { mime_type: Some(to_owned_string(mime_type)), ..self }
    }

    /// The identifier.
    pub fn uri(&self) -> (r: &str)
        ensures
            r@ == self.uri_view(),
    {
        self.uri.as_str()
    }

    /// The name.
    pub fn name(&self) -> (r: &str)
        ensures
            r@ == self.name_view(),
    {
        self.name.as_str()
    }

    /// The description.
    pub fn description(&self) -> (r: Option<&str>)
        ensures
            str_opt(r) == string_opt(self.description_view()),
    {
        opt_str(&self.description)
    }

    /// The MIME type.
    pub fn mime_type(&self) -> (r: Option<&str>)
        ensures
            str_opt(r) == string_opt(self.mime_view()),
    {
        opt_str(&self.mime_type)
    }

    /// The path of the file.
    pub fn path(&self) -> (r: &str)
        ensures
            r@ == self.path_view(),
    {
        self.path.as_str()
    }

    /// The content of the resource when the file holds `text`.
    pub fn content_of(&self, text: String) -> (r: ResourceContent)
        ensures
            r.uri@ == self.uri_view(),
            r.mime_type == self.mime_view(),
            r.text == Some(text),
            r.blob is None,
    {
        ResourceContent { uri: self.uri.clone(), mime_type: copy_opt(&self.mime_type), text: Some(text), blob: None }
    }
}

/// A resource whose text a function makes on each read.
pub struct DynamicResource<F: Fn() -> Result<String, String>> {
    uri: String,
    name: String,
    description: Option<String>,
    mime_type: Option<String>,
    generator: F,
}

impl<F: Fn() -> Result<String, String>> DynamicResource<F> {
    #[verifier::type_invariant]
    spec fn callable(self) -> bool {
        call_requires(self.generator, ())
    }

    /// The identifier.
    pub closed spec fn uri_view(&self) -> Seq<char> {
        self.uri@
    }

    /// The MIME type.
    pub closed spec fn mime_view(&self) -> Option<String> {
        self.mime_type
    }

    /// The function making the text.
    pub closed spec fn generator_view(&self) -> F {
        self.generator
    }

    /// The name.
    pub closed spec fn name_view(&self) -> Seq<char> {
        self.name@
    }

    /// The description.
    pub closed spec fn description_view(&self) -> Option<String> {
        self.description
    }

    /// The resource `uri` named `name` whose text `generator` makes.
    pub fn new(uri: &str, name: &str, generator: F) -> (r: Self)
        requires
            call_requires(generator, ()),
        ensures
            r.uri_view() == uri@,
            r.name_view() == name@,
            r.description_view() is None,
            r.mime_view() is None,
            r.generator_view() == generator,
    {
        DynamicResource {
            uri: to_owned_string(uri),
            name: to_owned_string(name),
            description: None,
            mime_type: None,
            generator,
        }
    }

    /// The same resource described by `description`.
    pub fn with_description(self, description: &str) -> (r: Self)
        ensures
            r.description_view() matches Some(d) && d@ == description@,
            r.uri_view() == self.uri_view(),
            r.name_view() == self.name_view(),
            r.mime_view() == self.mime_view(),
            r.generator_view() == self.generator_view(),
    {
        proof {
            use_type_invariant(&self);
        }
        DynamicResource { description: Some(to_owned_string(description)), ..self }
    }

    /// The same resource of MIME type `mime_type`.
    pub fn with_mime_type(self, mime_type: &str) -> (r: Self)
        ensures
            r.mime_view() matches Some(m) && m@ == mime_type@,
            r.uri_view() == self.uri_view(),
            r.name_view() == self.name_view(),
            r.description_view() == self.description_view(),
            r.generator_view() == self.generator_view(),
    {
        proof {
            use_type_invariant(&self);
        }
        DynamicResource { mime_type: Some(to_owned_string(mime_type)), ..self }
    }
}

impl<F: Fn() -> Result<String, String>> Resource for DynamicResource<F> {
    open spec fn uri_of(&self) -> Seq<char> {
        self.uri_view()
    }

    open spec fn name_of(&self) -> Seq<char> {
        self.name_view()
    }

    open spec fn description_of(&self) -> Option<Seq<char>> {
        string_opt(self.description_view())
    }

    open spec fn mime_type_of(&self) -> Option<Seq<char>> {
        string_opt(self.mime_view())
    }

    open spec fn gives(&self, r: Result<ResourceContent, String>) -> bool {
        exists|g: Result<String, String>| call_ensures(self.generator_view(), (), g) && match g {
            Ok(text) => r matches Ok(c) && c.uri@ == self.uri_view() && c.mime_type == self.mime_view()
                && c.text == Some(text) && c.blob is None,
            Err(e) => r == Err::<ResourceContent, String>(e),
        }
    }

    fn uri(&self) -> (r: &str)
        ensures
            r@ == self.uri_view(),
    {
        self.uri.as_str()
    }

    fn name(&self) -> (r: &str)
        ensures
            r@ == self.name_view(),
    {
        self.name.as_str()
    }

    fn description(&self) -> (r: Option<&str>)
        ensures
            str_opt(r) == string_opt(self.description_view()),
    {
        opt_str(&self.description)
    }

    fn mime_type(&self) -> (r: Option<&str>)
        ensures
            str_opt(r) == string_opt(self.mime_view()),
    {
        opt_str(&self.mime_type)
    }

    fn read(&self) -> (r: Result<ResourceContent, String>)
        ensures
            exists|g: Result<String, String>| call_ensures(self.generator_view(), (), g) && match g {
                Ok(text) => r matches Ok(c) && c.uri@ == self.uri_view() && c.mime_type == self.mime_view()
                    && c.text == Some(text) && c.blob is None,
                Err(e) => r == Err::<ResourceContent, String>(e),
            },
    {
        proof {
            use_type_invariant(self);
        }
        let g = (self.generator)();
        let ghost gg = g;
        let r = match g {
            Ok(text) => Ok(ResourceContent {
                uri: self.uri.clone(),
                mime_type: copy_opt(&self.mime_type),
                text: Some(text),
                blob: None,
            }),
            Err(e) => Err(e),
        };
        assert(call_ensures(self.generator_view(), (), gg) && match gg {
            Ok(text) => r matches Ok(c) && c.uri@ == self.uri_view() && c.mime_type == self.mime_view()
                && c.text == Some(text) && c.blob is None,
            Err(e) => r == Err::<ResourceContent, String>(e),
        });
        r
    }
}

/// Finds resources and reads them.
pub trait ResourceProvider {
    /// The resources offered.
    fn list(&self) -> Vec<ResourceDefinition>;

    /// Read resource `uri`.
    fn read(&self, uri: &str) -> Result<ResourceContent, String>;
}

struct ResourceSlot {
    resource: Box<dyn Resource>,
}

fn resource_slot<R: Resource + 'static>(r: R) -> ResourceSlot {
    ResourceSlot { resource: Box::new(r) }
}

/// What a resource is, as text: identifier, name, description and MIME
/// type.
pub type ResourceSpecView = (Seq<char>, Seq<char>, Option<Seq<char>>, Option<Seq<char>>);

/// The resources of a server, by identifier.
pub struct ResourceRegistry {
    resources: Vec<(String, ResourceSlot)>,
}

impl ResourceRegistry {
    #[verifier::type_invariant]
    spec fn inv(&self) -> bool {
        &&& distinct_keys(entry_names(self.resources@))
        &&& forall|i: int| 0 <= i < self.resources@.len() ==> (#[trigger] self.resources@[i]).0@ == self.resources@[i].1.resource.uri_of()
    }

    /// The identifiers registered, in the order first registered.
    pub closed spec fn uris(&self) -> Seq<Seq<char>> {
        names_of(self.resources@)
    }

    /// The position of the resource registered under `uri`.
    pub closed spec fn position(&self, uri: Seq<char>) -> int {
        key_index(entry_names(self.resources@), uri)
    }

    /// What the resource at position `i` is.
    pub closed spec fn definition_at(&self, i: int) -> ResourceSpecView {
        let r = self.resources@[i].1.resource;
        (r.uri_of(), r.name_of(), r.description_of(), r.mime_type_of())
    }

    /// `c` is what reading the resource at position `i` may give.
    pub closed spec fn gives_at(&self, i: int, c: Result<ResourceContent, String>) -> bool {
        self.resources@[i].1.resource.gives(c)
    }

    /// An empty registry.
    pub fn new() -> (r: Self)
        ensures
            r.uris().len() == 0,
    {
        let v: Vec<(String, ResourceSlot)> = Vec::new();
        assert(entry_names(v@) =~= Seq::<(Seq<char>, ())>::empty());
        ResourceRegistry { resources: v }
    }

    /// Register `resource` under the identifier it reports, replacing one
    /// registered under it; the others stay where they are.
    pub fn register<R: Resource + 'static>(&mut self, resource: R)
        ensures
            exists|u: Seq<char>| #[trigger] final(self).registered_under(*old(self), u),
    {
        proof {
            use_type_invariant(&*self);
        }
        let slot = resource_slot(resource);
        let uri = to_owned_string(slot.resource.uri());
        let ghost before = self.resources@;
        let ghost u = uri@;
        let mut entries: Vec<(String, ResourceSlot)> = Vec::new();
        std::mem::swap(&mut entries, &mut self.resources);
        assert(entry_names(self.resources@) =~= Seq::<(Seq<char>, ())>::empty());
        put_named(&mut entries, uri.as_str(), slot);
        proof {
            let after = entries@;
            crate::mediator::lemma_names_contains(after, u);
            assert forall|i: int| 0 <= i < after.len() implies (#[trigger] after[i]).0@ == after[i].1.resource.uri_of() by {
                if i < before.len() && before[i].0@ != u {
                    assert(after[i] == before[i]);
                } else {
                    let k = key_index(entry_names(after), u);
                    if i < before.len() {
                        assert(names_of(after)[i] == names_of(before)[i]);
                    } else {
                        assert(names_of(after).len() == before.len() + 1);
                        assert(names_of(after)[i] == u);
                    }
                    assert(after[i].0@ == u);
                    assert(entry_names(after)[k].0 == u);
                    assert(entry_names(after)[i].0 == u);
                    crate::multimap::lemma_key_index_unique(entry_names(after), i);
                    assert(i == k);
                }
            }
            assert forall|j: int| 0 <= j < before.len() && names_of(before)[j] != u implies
                key_index(entry_names(after), names_of(before)[j]) == j by {
                assert(after[j] == before[j]);
                crate::multimap::lemma_key_index_unique(entry_names(after), j);
            }
        }
        self.resources = entries;
        proof {
            assert(self.uris() == put_name(old(self).uris(), u));
            assert(self.registered_under(*old(self), u));
        }
    }

    /// This registry is `before` once a resource reporting the identifier
    /// `uri` is registered: it stands under `uri`, replacing one there, and
    /// every other resource stays where it was.
    pub open spec fn registered_under(&self, before: ResourceRegistry, uri: Seq<char>) -> bool {
        &&& self.uris() == put_name(before.uris(), uri)
        &&& self.definition_at(self.position(uri)).0 == uri
        &&& forall|j: int| 0 <= j < before.uris().len() && before.uris()[j] != uri ==> {
            &&& self.uris()[j] == before.uris()[j]
            &&& self.position(before.uris()[j]) == j
            &&& self.definition_at(j) == before.definition_at(j)
            &&& forall|c: Result<ResourceContent, String>| #[trigger] self.gives_at(j, c) == before.gives_at(j, c)
        }
    }

    /// Whether a resource is registered under `uri`.
    pub fn contains(&self, uri: &str) -> (r: bool)
        ensures
            r == self.uris().contains(uri@),
    {
        proof {
            use_type_invariant(self);
            crate::mediator::lemma_names_contains(self.resources@, uri@);
        }
        find_name(&self.resources, uri).is_some()
    }

    /// The resource registered under `uri`.
    pub fn get(&self, uri: &str) -> (r: Option<&Box<dyn Resource>>)
        ensures
            r is Some == self.uris().contains(uri@),
            r matches Some(x) ==> (x.uri_of(), x.name_of(), x.description_of(), x.mime_type_of())
                == self.definition_at(self.position(uri@)) && x.uri_of() == uri@
                && forall|c: Result<ResourceContent, String>| #[trigger] x.gives(c) == self.gives_at(self.position(uri@), c),
    {
        proof {
            use_type_invariant(self);
            crate::mediator::lemma_names_contains(self.resources@, uri@);
        }
        match find_name(&self.resources, uri) {
            Some(i) => Some(&self.resources[i].1.resource),
            None => None,
        }
    }

    /// What each resource is, in the order registered.
    pub fn list(&self) -> (r: Vec<ResourceDefinition>)
        ensures
            r@.len() == self.uris().len(),
            forall|i: int| 0 <= i < r@.len() ==> (
                (#[trigger] r@[i]).uri@,
                r@[i].name@,
                string_opt(r@[i].description),
                string_opt(r@[i].mime_type),
            ) == self.definition_at(i),
            forall|i: int| 0 <= i < r@.len() ==> (#[trigger] r@[i]).uri@ == self.uris()[i],
    {
        proof {
            use_type_invariant(self);
        }
        let mut out: Vec<ResourceDefinition> = Vec::new();
        let mut i: usize = 0;
        while i < self.resources.len()
            invariant
                i <= self.resources@.len(),
                out@.len() == i,
                forall|k: int| 0 <= k < self.resources@.len() ==> (#[trigger] self.resources@[k]).0@ == self.resources@[k].1.resource.uri_of(),
                forall|k: int| 0 <= k < i ==> (
                    (#[trigger] out@[k]).uri@,
                    out@[k].name@,
                    string_opt(out@[k].description),
                    string_opt(out@[k].mime_type),
                ) == self.definition_at(k),
            decreases self.resources@.len() - i,
        {
            let r = &self.resources[i].1.resource;
            let d = ResourceDefinition {
                uri: to_owned_string(r.uri()),
                name: to_owned_string(r.name()),
                description: owned_opt(r.description()),
                mime_type: owned_opt(r.mime_type()),
            };
            out.push(d);
            i = i + 1;
        }
        proof {
            assert forall|k: int| 0 <= k < out@.len() implies (#[trigger] out@[k]).uri@ == self.uris()[k] by {
                assert(self.uris()[k] == self.resources@[k].0@);
            }
        }
        out
    }

    /// Read the resource registered under `uri`: what it gives, as the one
    /// content of the answer, or its error.
    pub fn read(&self, uri: &str) -> (r: Result<ReadResourceResult, String>)
        ensures
            !self.uris().contains(uri@) ==> (r matches Err(m) && m@ == "Resource not found: "@ + uri@),
            self.uris().contains(uri@) ==> exists|c: Result<ResourceContent, String>| #[trigger] self.gives_at(self.position(uri@), c)
                && match c {
                    Ok(content) => r matches Ok(res) && res.contents@ == seq![content],
                    Err(e) => r == Err::<ReadResourceResult, String>(e),
                },
    {
        proof {
            use_type_invariant(self);
            crate::mediator::lemma_names_contains(self.resources@, uri@);
        }
        match find_name(&self.resources, uri) {
            Some(i) => {
                let got = self.resources[i].1.resource.read();
                let ghost g = got;
                match got {
                    Ok(content) => {
                        let mut contents: Vec<ResourceContent> = Vec::new();
                        contents.push(content);
                        proof {
                            assert(contents@ =~= seq![content]);
                        }
                        let r = Ok(ReadResourceResult { contents });
                        assert(self.gives_at(self.position(uri@), g));
                        r
                    },
                    Err(e) => {
                        assert(self.gives_at(self.position(uri@), g));
                        Err(e)
                    },
                }
            },
            None => {
                let mut m = to_owned_string("Resource not found: ");
                string_push_str(&mut m, uri);
                Err(m)
            },
        }
    }
}

impl Default for ResourceRegistry {
    fn default() -> (r: Self)
        ensures
            r.uris().len() == 0,
    {
        ResourceRegistry::new()
    }
}

/// A piece of a tool's answer.
#[derive(Debug, Clone, PartialEq, Eq)]
pub enum ToolContent {
    Text { text: String },
}

/// What calling a tool gives.
#[derive(Debug, Clone, PartialEq, Eq)]
pub struct CallToolResult {
    pub content: Vec<ToolContent>,
    pub is_error: bool,
}

/// A text answer.
fn text_result(text: String) -> (r: CallToolResult)
    ensures
        r.content@ == seq![ToolContent::Text { text }],
        !r.is_error,
{
    let mut content: Vec<ToolContent> = Vec::new();
    content.push(ToolContent::Text { text });
    assert(content@ =~= seq![ToolContent::Text { text }]);
    CallToolResult { content, is_error: false }
}

/// What a tool is, as listed.
#[derive(Debug)]
pub struct ToolDefinition {
    pub name: String,
    pub description: Option<String>,
    /// JSON schema of the arguments.
    pub input_schema: serde_json::Value,
}

/// `serde_json::from_str` of `text`, or JSON null where it is not JSON.
/// Nothing is stated of the value: JSON values are carried, not inspected.
#[verifier::external_body]
fn json_of_text(text: &str) -> serde_json::Value {
    serde_json::from_str(text).unwrap_or(serde_json::Value::Null)
}

/// `serde_json::Value::as_str`, copied: the text of a JSON string, none for
/// any other value. Nothing is stated of it: JSON values are not inspected
/// by the library.
#[verifier::external_body]
fn json_text(v: &serde_json::Value) -> Option<String> {
    match v.as_str() {
        Some(s) => Some(s.to_string()),
        None => None,
    }
}

/// The current time as `chrono`'s RFC 3339 text. Nothing is stated of it,
/// which depends on when it is called.
#[verifier::external_body]
fn now_rfc3339() -> String {
    chrono::Utc::now().to_rfc3339()
}

/// Some argument of `args` is named `key`.
pub open spec fn has_argument(args: Seq<(String, serde_json::Value)>, key: Seq<char>) -> bool {
    exists|i: int| 0 <= i < args.len() && (#[trigger] args[i]).0@ == key
}

/// The first argument named `key`.
fn argument<'a>(args: &'a Vec<(String, serde_json::Value)>, key: &str) -> (r: Option<&'a serde_json::Value>)
    ensures
        r is Some == has_argument(args@, key@),
{
    let mut i: usize = 0;
    while i < args.len()
        invariant
            i <= args@.len(),
            forall|j: int| 0 <= j < i ==> (#[trigger] args@[j]).0@ != key@,
        decreases args@.len() - i,
    {
        if crate::text::str_eq(args[i].0.as_str(), key) {
            return Some(&args[i].1);
        }
        i = i + 1;
    }
    None
}

/// Something a server lets clients call.
pub trait Tool {
    /// Its name.
    fn name(&self) -> &str;

    fn description(&self) -> Option<&str>;

    /// JSON schema of its arguments.
    fn input_schema(&self) -> serde_json::Value;

    /// Call it with named arguments.
    fn call(&self, arguments: Vec<(String, serde_json::Value)>) -> Result<CallToolResult, String>;
}

/// A tool made of a name, a schema and a function.
pub struct FnTool<F: Fn(Vec<(String, serde_json::Value)>) -> Result<String, String>> {
    name: String,
    description: Option<String>,
    input_schema: serde_json::Value,
    func: F,
}

impl<F: Fn(Vec<(String, serde_json::Value)>) -> Result<String, String>> FnTool<F> {
    #[verifier::type_invariant]
    spec fn callable(self) -> bool {
        forall|a: Vec<(String, serde_json::Value)>| call_requires(self.func, (a,))
    }

    /// The function.
    pub closed spec fn function(&self) -> F {
        self.func
    }

    /// The tool `name` calling `func`.
    pub fn new(name: &str, description: Option<String>, input_schema: serde_json::Value, func: F) -> (r: Self)
        requires
            forall|a: Vec<(String, serde_json::Value)>| call_requires(func, (a,)),
        ensures
            r.function() == func,
    {
        FnTool { name: to_owned_string(name), description, input_schema, func }
    }
}

impl<F: Fn(Vec<(String, serde_json::Value)>) -> Result<String, String>> Tool for FnTool<F> {
    fn name(&self) -> &str {
        self.name.as_str()
    }

    fn description(&self) -> Option<&str> {
        opt_str(&self.description)
    }

    fn input_schema(&self) -> serde_json::Value {
        json_clone(&self.input_schema)
    }

    fn call(&self, arguments: Vec<(String, serde_json::Value)>) -> (r: Result<CallToolResult, String>)
        ensures
            exists|g: Result<String, String>| call_ensures(self.function(), (arguments,), g) && match g {
                Ok(t) => r matches Ok(c) && c.content@ == seq![ToolContent::Text { text: t }] && !c.is_error,
                Err(e) => r == Err::<CallToolResult, String>(e),
            },
    {
        proof {
            use_type_invariant(self);
        }
        let ghost args = arguments;
        let g = (self.func)(arguments);
        let ghost gg = g;
        let r = match g {
            Ok(t) => Ok(text_result(t)),
            Err(e) => Err(e),
        };
        assert(call_ensures(self.function(), (args,), gg));
        r
    }
}

/// A tool that answers with its `message` argument.
pub struct EchoTool;

impl Tool for EchoTool {
    fn name(&self) -> (r: &str)
        ensures
            r@ == "echo"@,
    {
        "echo"
    }

    fn description(&self) -> Option<&str> {
        Some("Echo back the input message")
    }

    fn input_schema(&self) -> serde_json::Value {
        json_of_text(
            "{\"type\":\"object\",\"properties\":{\"message\":{\"type\":\"string\",\"description\":\"Message to echo\"}},\"required\":[\"message\"]}",
        )
    }

    fn call(&self, arguments: Vec<(String, serde_json::Value)>) -> (r: Result<CallToolResult, String>)
        ensures
            !has_argument(arguments@, "message"@) ==> (r matches Err(m) && m@ == "Missing message argument"@),
            r matches Ok(c) ==> c.content@.len() == 1 && !c.is_error,
    {
        let text = match argument(&arguments, "message") {
            Some(v) => json_text(v),
            None => None,
        };
        match text {
            Some(t) => Ok(text_result(t)),
            None => Err(to_owned_string("Missing message argument")),
        }
    }
}

/// A tool that answers with the current time.
pub struct CurrentTimeTool;

impl Tool for CurrentTimeTool {
    fn name(&self) -> (r: &str)
        ensures
            r@ == "current_time"@,
    {
        "current_time"
    }

    fn description(&self) -> Option<&str> {
        Some("Get the current date and time")
    }

    fn input_schema(&self) -> serde_json::Value {
        json_of_text(
            "{\"type\":\"object\",\"properties\":{\"timezone\":{\"type\":\"string\",\"description\":\"Timezone (optional, defaults to UTC)\"}}}",
        )
    }

    fn call(&self, arguments: Vec<(String, serde_json::Value)>) -> (r: Result<CallToolResult, String>)
        ensures
            r matches Ok(c) && c.content@.len() == 1 && !c.is_error,
    {
        Ok(text_result(now_rfc3339()))
    }
}

struct ToolSlot {
    tool: Box<dyn Tool>,
}

fn tool_slot<T: Tool + 'static>(t: T) -> ToolSlot {
    ToolSlot { tool: Box::new(t) }
}

/// The tools of a server, by name.
pub struct ToolRegistry {
    tools: Vec<(String, ToolSlot)>,
}

impl ToolRegistry {
    #[verifier::type_invariant]
    spec fn inv(&self) -> bool {
        distinct_keys(entry_names(self.tools@))
    }

    /// The names registered, in the order first registered.
    pub closed spec fn tool_names(&self) -> Seq<Seq<char>> {
        names_of(self.tools@)
    }

    /// An empty registry.
    pub fn new() -> (r: Self)
        ensures
            r.tool_names().len() == 0,
    {
        let v: Vec<(String, ToolSlot)> = Vec::new();
        assert(entry_names(v@) =~= Seq::<(Seq<char>, ())>::empty());
        ToolRegistry { tools: v }
    }

    /// Register `tool` under its name, replacing one registered under it.
    pub fn register<T: Tool + 'static>(&mut self, tool: T)
        ensures
            exists|n: Seq<char>| final(self).tool_names() == put_name(old(self).tool_names(), n),
    {
        proof {
            use_type_invariant(&*self);
        }
        let name = to_owned_string(tool.name());
        let ghost before = self.tool_names();
        let mut entries: Vec<(String, ToolSlot)> = Vec::new();
        std::mem::swap(&mut entries, &mut self.tools);
        assert(entry_names(self.tools@) =~= Seq::<(Seq<char>, ())>::empty());
        put_named(&mut entries, name.as_str(), tool_slot(tool));
        self.tools = entries;
        assert(self.tool_names() == put_name(before, name@));
    }

    /// The tool registered under `name`.
    pub fn get(&self, name: &str) -> (r: Option<&dyn Tool>)
        ensures
            r is Some == self.tool_names().contains(name@),
    {
        proof {
            use_type_invariant(self);
            crate::mediator::lemma_names_contains(self.tools@, name@);
        }
        match find_name(&self.tools, name) {
            Some(i) => Some(&*self.tools[i].1.tool),
            None => None,
        }
    }

    /// What each tool is, in the order registered.
    pub fn list(&self) -> (r: Vec<ToolDefinition>)
        ensures
            r@.len() == self.tool_names().len(),
    {
        let mut out: Vec<ToolDefinition> = Vec::new();
        let mut i: usize = 0;
        while i < self.tools.len()
            invariant
                i <= self.tools@.len(),
                out@.len() == i,
            decreases self.tools@.len() - i,
        {
            let t = &self.tools[i].1.tool;
            out.push(ToolDefinition {
                name: to_owned_string(t.name()),
                description: owned_opt(t.description()),
                input_schema: t.input_schema(),
            });
            i = i + 1;
        }
        out
    }

    /// Call the tool registered under `name` with `arguments`.
    pub fn call(&self, name: &str, arguments: Vec<(String, serde_json::Value)>) -> (r: Result<CallToolResult, String>)
        ensures
            !self.tool_names().contains(name@) ==> (r matches Err(m) && m@ == "Tool not found: "@ + name@),
    {
        proof {
            use_type_invariant(self);
            crate::mediator::lemma_names_contains(self.tools@, name@);
        }
        match find_name(&self.tools, name) {
            Some(i) => self.tools[i].1.tool.call(arguments),
            None => {
                let mut m = to_owned_string("Tool not found: ");
                string_push_str(&mut m, name);
                Err(m)
            },
        }
    }
}

/// The requests a server answers.
#[derive(Debug, Clone, Copy, PartialEq, Eq, Structural)]
pub enum McpMethod {
    Initialize,
    ListTools,
    CallTool,
    ListResources,
    ReadResource,
    ListPrompts,
    GetPrompt,
    Ping,
}

/// The request method named `m`, if a server answers it.
pub open spec fn method_named(m: Seq<char>) -> Option<McpMethod> {
    if m == "initialize"@ {
        Some(McpMethod::Initialize)
    } else if m == "tools/list"@ {
        Some(McpMethod::ListTools)
    } else if m == "tools/call"@ {
        Some(McpMethod::CallTool)
    } else if m == "resources/list"@ {
        Some(McpMethod::ListResources)
    } else if m == "resources/read"@ {
        Some(McpMethod::ReadResource)
    } else if m == "prompts/list"@ {
        Some(McpMethod::ListPrompts)
    } else if m == "prompts/get"@ {
        Some(McpMethod::GetPrompt)
    } else if m == "ping"@ {
        Some(McpMethod::Ping)
    } else {
        None
    }
}

impl McpMethod {
    /// The method named `method`, or the message a server answers an
    /// unknown one with.
    pub fn parse(method: &str) -> (r: Result<McpMethod, String>)
        ensures
            match method_named(method@) {
                Some(m) => r == Ok::<McpMethod, String>(m),
                None => r matches Err(e) && e@ == "Unknown method: "@ + method@,
            },
    {
        let eq = |a: &str, b: &str| -> (r: bool)
            ensures
                r == (a@ == b@),
            { crate::text::str_eq(a, b) };
        if eq(method, "initialize") {
            Ok(McpMethod::Initialize)
        } else if eq(method, "tools/list") {
            Ok(McpMethod::ListTools)
        } else if eq(method, "tools/call") {
            Ok(McpMethod::CallTool)
        } else if eq(method, "resources/list") {
            Ok(McpMethod::ListResources)
        } else if eq(method, "resources/read") {
            Ok(McpMethod::ReadResource)
        } else if eq(method, "prompts/list") {
            Ok(McpMethod::ListPrompts)
        } else if eq(method, "prompts/get") {
            Ok(McpMethod::GetPrompt)
        } else if eq(method, "ping") {
            Ok(McpMethod::Ping)
        } else {
            let mut m = to_owned_string("Unknown method: ");
            string_push_str(&mut m, method);
            Err(m)
        }
    }
}

/// JSON-RPC error code: the message is not JSON-RPC.
pub const PARSE_ERROR: i64 = -32700;

/// JSON-RPC error code: no such method.
pub const METHOD_NOT_FOUND: i64 = -32601;

/// JSON-RPC error code: the parameters do not fit the method.
pub const INVALID_PARAMS: i64 = -32602;

/// JSON-RPC error code: the server failed.
pub const INTERNAL_ERROR: i64 = -32603;

/// The identifier of a JSON-RPC request.
#[derive(Debug, Clone, PartialEq, Eq)]
pub enum RequestId {
    Number(i64),
    String(String),
}

/// A JSON-RPC error.
#[derive(Debug)]
pub struct JsonRpcError {
    pub code: i64,
    pub message: String,
    pub data: Option<serde_json::Value>,
}

/// A JSON-RPC response.
#[derive(Debug)]
pub struct JsonRpcResponse {
    pub jsonrpc: String,
    pub id: RequestId,
    pub result: Option<serde_json::Value>,
    pub error: Option<JsonRpcError>,
}

/// The method a request names, or the error a server answers an unknown
/// method with: method not found, saying which.
pub fn dispatch(method: &str) -> (r: Result<McpMethod, JsonRpcError>)
    ensures
        match method_named(method@) {
            Some(m) => r matches Ok(x) && x == m,
            None => r matches Err(e) && e.code == METHOD_NOT_FOUND && e.message@ == "Unknown method: "@ + method@
                && e.data is None,
        },
{
    match McpMethod::parse(method) {
        Ok(m) => Ok(m),
        Err(message) => Err(JsonRpcError { code: METHOD_NOT_FOUND, message, data: None }),
    }
}

/// The response to request `id` that came out as `outcome`: JSON-RPC 2.0,
/// carrying the result or the error.
pub fn respond(id: RequestId, outcome: Result<serde_json::Value, JsonRpcError>) -> (r: JsonRpcResponse)
    ensures
        r.jsonrpc@ == "2.0"@,
        r.id == id,
        match outcome {
            Ok(v) => r.result == Some(v) && r.error is None,
            Err(e) => r.result is None && r.error == Some(e),
        },
{
    match outcome {
        Ok(v) => JsonRpcResponse { jsonrpc: to_owned_string("2.0"), id, result: Some(v), error: None },
        Err(e) => JsonRpcResponse { jsonrpc: to_owned_string("2.0"), id, result: None, error: Some(e) },
    }
}

/// What a line read from standard input parses as.
#[derive(Debug, Clone, Copy, PartialEq, Eq, Structural)]
pub enum LineKind {
    Request,
    Notification,
    Invalid,
}

/// What a stdio server does with a line.
#[derive(Debug)]
pub enum StdioAction {
    /// Nothing: the line is blank.
    Skip,
    /// Answer the request the line holds.
    Answer,
    /// Take in the notification the line holds, answering nothing.
    Notify,
    /// Write this response: the line is no JSON-RPC message.
    Reject(JsonRpcResponse),
}

/// What a stdio server does with `line`, which parses as `kind`: skip it
/// when blank; else answer a request, take in a notification, and reject
/// anything else with a parse error under identifier 0.
pub fn stdio_step(line: &str, kind: LineKind) -> (r: StdioAction)
    ensures
        crate::chars::trim(line@).len() == 0 ==> r is Skip,
        crate::chars::trim(line@).len() != 0 ==> match kind {
            LineKind::Request => r is Answer,
            LineKind::Notification => r is Notify,
            LineKind::Invalid => r matches StdioAction::Reject(resp) && resp.jsonrpc@ == "2.0"@
                && resp.id == RequestId::Number(0) && resp.result is None && (resp.error matches Some(e)
                && e.code == PARSE_ERROR && e.message@ == "Failed to parse JSON-RPC message"@ && e.data is None),
        },
{
    let chars = crate::text::chars_of(line);
    let (a, b) = crate::chars::strip_range(&chars, 0, chars.len(), false);
    assert(chars@.subrange(0, chars@.len() as int) =~= line@);
    if a == b {
        return StdioAction::Skip;
    }
    match kind {
        LineKind::Request => StdioAction::Answer,
        LineKind::Notification => StdioAction::Notify,
        LineKind::Invalid => StdioAction::Reject(respond(
            RequestId::Number(0),
            Err(JsonRpcError { code: PARSE_ERROR, message: to_owned_string("Failed to parse JSON-RPC message"), data: None }),
        )),
    }
}

/// The error for a method called without parameters.
pub fn missing_params() -> (r: JsonRpcError)
    ensures
        r.code == INVALID_PARAMS && r.message@ == "Missing params"@ && r.data is None,
{
    JsonRpcError { code: INVALID_PARAMS, message: to_owned_string("Missing params"), data: None }
}

/// The error for parameters that do not fit, saying why.
pub fn invalid_params(why: String) -> (r: JsonRpcError)
    ensures
        r.code == INVALID_PARAMS && r.message == why && r.data is None,
{
    JsonRpcError { code: INVALID_PARAMS, message: why, data: None }
}

/// The error for a tool or resource that failed, saying why.
pub fn internal_error(why: String) -> (r: JsonRpcError)
    ensures
        r.code == INTERNAL_ERROR && r.message == why && r.data is None,
{
    JsonRpcError { code: INTERNAL_ERROR, message: why, data: None }
}

/// The error for an unknown prompt.
pub fn prompt_not_found(name: &str) -> (r: JsonRpcError)
    ensures
        r.code == INVALID_PARAMS && r.message@ == "Prompt not found: "@ + name@ && r.data is None,
{
    let mut m = to_owned_string("Prompt not found: ");
    string_push_str(&mut m, name);
    JsonRpcError { code: INVALID_PARAMS, message: m, data: None }
}

/// A server's or client's name and version.
#[derive(Debug, Clone, PartialEq, Eq)]
pub struct Implementation {
    pub name: String,
    pub version: String,
}

/// A server hosting tools and resources.
pub struct McpServer {
    pub info: Implementation,
    pub tools: ToolRegistry,
    pub resources: ResourceRegistry,
}

impl McpServer {
    /// A server named `name` at `version`, without tools or resources.
    pub fn new(name: &str, version: &str) -> (r: Self)
        ensures
            r.info.name@ == name@,
            r.info.version@ == version@,
            r.tools.tool_names().len() == 0,
            r.resources.uris().len() == 0,
    {
        McpServer {
            info: Implementation { name: to_owned_string(name), version: to_owned_string(version) },
            tools: ToolRegistry::new(),
            resources: ResourceRegistry::new(),
        }
    }
}


/// Builds a server from its name and version.
pub struct McpServerBuilder {
    name: String,
    version: String,
}

impl McpServerBuilder {
    /// A builder for a server named `name` at `version`.
    pub fn new(name: &str, version: &str) -> (r: Self)
        ensures
            r.name_view() == name@,
            r.version_view() == version@,
    {
        McpServerBuilder { name: to_owned_string(name), version: to_owned_string(version) }
    }

    /// The server's name.
    pub closed spec fn name_view(&self) -> Seq<char> {
        self.name@
    }

    /// The server's version.
    pub closed spec fn version_view(&self) -> Seq<char> {
        self.version@
    }

    /// The server, without tools or resources.
    pub fn build(self) -> (r: McpServer)
        ensures
            r.info.name@ == self.name_view(),
            r.info.version@ == self.version_view(),
            r.tools.tool_names().len() == 0,
            r.resources.uris().len() == 0,
    {
        McpServer::new(self.name.as_str(), self.version.as_str())
    }
}

} // verus!
