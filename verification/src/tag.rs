//! Image tags and references to images.
//!
//! A tag names one image definition as `namespace/name`. A raw reference, as
//! written by a user or in the `from` field of a stage, is resolved against the
//! active namespace: a reference inside that namespace is managed and names a
//! local definition, any other reference is opaque and is passed on verbatim.

use vstd::prelude::*;
use vstd::string::*;
use crate::text::{chars_of, find_char, first_position, lemma_first_position, str_eq};

verus! {

/// A namespace or a name: not empty, and without a `/`.
pub open spec fn valid_segment(s: Seq<char>) -> bool {
    s.len() > 0 && first_position(s, '/') is None
}

/// The mathematical value of a [`Tag`].
pub struct TagView {
    pub namespace: Seq<char>,
    pub name: Seq<char>,
}

impl TagView {
    /// Both parts are valid segments.
    pub open spec fn valid(self) -> bool {
        valid_segment(self.namespace) && valid_segment(self.name)
    }

    /// The canonical text `namespace/name`.
    pub open spec fn text(self) -> Seq<char> {
        self.namespace + seq!['/'] + self.name
    }
}

/// What a raw reference resolves to under a namespace, if it resolves.
///
/// Without a `/` the reference is the name. With one, the text before the first
/// `/` has to be the namespace and the rest is the name. Either way both parts
/// have to be valid segments.
pub open spec fn resolved(raw: Seq<char>, namespace: Seq<char>) -> Option<TagView> {
    match first_position(raw, '/') {
        None => {
            let tag = TagView { namespace, name: raw };
            if tag.valid() {
                Some(tag)
            } else {
                None
            }
        },
        Some(p) => {
            let tag = TagView { namespace, name: raw.skip(p + 1) };
            if raw.take(p) == namespace && tag.valid() {
                Some(tag)
            } else {
                None
            }
        },
    }
}

/// The namespace that a build runs under: the configured one, or else the text
/// before the first `/` of the root reference.
pub open spec fn established_namespace(configured: Option<Seq<char>>, root: Seq<char>) -> Option<
    Seq<char>,
> {
    match configured {
        Some(namespace) => Some(namespace),
        None => match first_position(root, '/') {
            Some(p) => Some(root.take(p)),
            None => None,
        },
    }
}

/// Why a reference could not be turned into a tag.
#[derive(Debug, PartialEq, Eq)]
pub enum TagError {
    /// The reference cannot be written as `namespace/name` under the namespace
    /// in force. Holds the reference.
    InvalidTagFormat(String),
    /// No namespace is configured and the root reference has none. Holds the
    /// reference.
    MissingNamespace(String),
}

impl TagError {
    /// The reference that the error is about.
    pub open spec fn reference(self) -> Seq<char> {
        match self {
            TagError::InvalidTagFormat(raw) => raw@,
            TagError::MissingNamespace(raw) => raw@,
        }
    }

    /// The message that describes the error.
    pub open spec fn message(self) -> Seq<char> {
        match self {
            TagError::InvalidTagFormat(raw) => "Can't create image for invalid tag: "@ + raw@,
            TagError::MissingNamespace(raw) =>
                "Missing image tag namespace in the config file or in the image tag: "@ + raw@,
        }
    }

    /// Renders the error for a user.
    pub fn to_string(&self) -> (text: String)
        ensures
            text@ == self.message(),
    {
        match self {
            TagError::InvalidTagFormat(raw) => {
                String::from_str("Can't create image for invalid tag: ").concat(raw.as_str())
            },
            TagError::MissingNamespace(raw) => {
                String::from_str(
                    "Missing image tag namespace in the config file or in the image tag: ",
                ).concat(raw.as_str())
            },
        }
    }
}

/// The identifier `namespace/name` of one image definition.
#[derive(Debug, PartialEq, Eq)]
pub struct Tag {
    namespace: String,
    name: String,
    canonical: String,
}

impl View for Tag {
    type V = TagView;

    closed spec fn view(&self) -> TagView {
        TagView { namespace: self.namespace@, name: self.name@ }
    }
}

impl Clone for Tag {
    fn clone(&self) -> (copy: Self)
        ensures
            copy@ == self@,
    {
        proof {
            use_type_invariant(self);
        }
        Tag {
            namespace: self.namespace.clone(),
            name: self.name.clone(),
            canonical: self.canonical.clone(),
        }
    }
}

/// Whether the characters form a valid segment.
fn is_segment(chars: &Vec<char>) -> (r: bool)
    ensures
        r == valid_segment(chars@),
{
    chars.len() > 0 && find_char(chars, '/').is_none()
}

impl Tag {
    #[verifier::type_invariant]
    spec fn well_formed(&self) -> bool {
        &&& self@.valid()
        &&& self.canonical@ == self@.text()
    }

    /// Puts a tag together from parts that are known to be valid.
    fn assemble(namespace: &str, name: &str) -> (tag: Tag)
        requires
            valid_segment(namespace@),
            valid_segment(name@),
        ensures
            tag@ == (TagView { namespace: namespace@, name: name@ }),
    {
        let mut canonical = String::from_str(namespace);
        canonical.append("/");
        canonical.append(name);
        proof {
            reveal_strlit("/");
            assert("/"@ =~= seq!['/']);
        }
        Tag { namespace: String::from_str(namespace), name: String::from_str(name), canonical }
    }

    /// Resolves a raw reference under a namespace.
    ///
    /// Succeeds exactly on the references that [`resolved`] accepts, and fails
    /// on all others with `InvalidTagFormat` holding the reference.
    pub fn resolve(raw: &str, namespace: &str) -> (r: Result<Tag, TagError>)
        ensures
            match r {
                Ok(tag) => tag@.valid() && resolved(raw@, namespace@) == Some(tag@),
                Err(error) => {
                    &&& resolved(raw@, namespace@) is None
                    &&& error is InvalidTagFormat
                    &&& error.reference() == raw@
                },
            },
    {
        let raw_chars = chars_of(raw);
        let namespace_chars = chars_of(namespace);
        if !is_segment(&namespace_chars) {
            return Err(TagError::InvalidTagFormat(String::from_str(raw)));
        }
        match find_char(&raw_chars, '/') {
            None => {
                if raw_chars.len() == 0 {
                    return Err(TagError::InvalidTagFormat(String::from_str(raw)));
                }
                Ok(Tag::assemble(namespace, raw))
            },
            Some(p) => {
                assert(p < raw_chars.len());
                let prefix = raw.substring_char(0, p);
                let name = raw.substring_char(p + 1, raw_chars.len());
                assert(prefix@ == raw@.take(p as int));
                assert(name@ == raw@.skip(p + 1));
                if !str_eq(prefix, namespace) {
                    return Err(TagError::InvalidTagFormat(String::from_str(raw)));
                }
                let name_chars = chars_of(name);
                if !is_segment(&name_chars) {
                    return Err(TagError::InvalidTagFormat(String::from_str(raw)));
                }
                Ok(Tag::assemble(namespace, name))
            },
        }
    }

    /// The namespace.
    pub fn namespace(&self) -> (namespace: &str)
        ensures
            namespace@ == self@.namespace,
            self@.valid(),
    {
        proof {
            use_type_invariant(self);
        }
        self.namespace.as_str()
    }

    /// The name inside the namespace.
    pub fn name(&self) -> (name: &str)
        ensures
            name@ == self@.name,
            self@.valid(),
    {
        proof {
            use_type_invariant(self);
        }
        self.name.as_str()
    }

    /// The canonical text `namespace/name`.
    pub fn as_str(&self) -> (text: &str)
        ensures
            text@ == self@.text(),
            self@.valid(),
    {
        proof {
            use_type_invariant(self);
        }
        self.canonical.as_str()
    }

    /// The canonical text `namespace/name`, owned.
    pub fn to_string(&self) -> (text: String)
        ensures
            text@ == self@.text(),
    {
        proof {
            use_type_invariant(self);
        }
        self.canonical.clone()
    }

    /// Whether two tags name the same image.
    pub fn same(&self, other: &Tag) -> (r: bool)
        ensures
            r == (self@ == other@),
    {
        proof {
            use_type_invariant(self);
            use_type_invariant(other);
            lemma_text_injective(self@, other@);
        }
        self.canonical == other.canonical
    }
}

/// Different valid tags have different canonical texts.
pub proof fn lemma_text_injective(a: TagView, b: TagView)
    requires
        a.valid(),
        b.valid(),
    ensures
        a.text() == b.text() <==> a == b,
{
    if a.text() == b.text() {
        lemma_text_first_slash(a);
        lemma_text_first_slash(b);
        assert(a.namespace =~= a.text().take(a.namespace.len() as int));
        assert(b.namespace =~= b.text().take(b.namespace.len() as int));
        assert(a.name =~= a.text().skip(a.namespace.len() as int + 1));
        assert(b.name =~= b.text().skip(b.namespace.len() as int + 1));
    }
}

/// In the canonical text the first `/` is the one behind the namespace.
pub proof fn lemma_text_first_slash(tag: TagView)
    requires
        tag.valid(),
    ensures
        first_position(tag.text(), '/') == Some(tag.namespace.len() as int),
{
    let text = tag.text();
    let p = tag.namespace.len() as int;
    crate::text::lemma_first_position_none(tag.namespace, '/');
    assert forall|i: int| 0 <= i < p implies text[i] != '/' by {
        assert(text[i] == tag.namespace[i]);
    }
    assert(text[p] == '/');
    lemma_first_position(text, '/', p);
}

/// Resolving the canonical text of a tag under its own namespace gives the tag
/// back: resolution is idempotent.
pub proof fn lemma_resolve_canonical(tag: TagView)
    requires
        tag.valid(),
    ensures
        resolved(tag.text(), tag.namespace) == Some(tag),
{
    lemma_text_first_slash(tag);
    let p = tag.namespace.len() as int;
    assert(tag.text().take(p) =~= tag.namespace);
    assert(tag.text().skip(p + 1) =~= tag.name);
}

/// Whatever a reference resolves to is valid, lies in the namespace asked for,
/// and resolves to itself again.
pub proof fn lemma_resolved_is_fixed(raw: Seq<char>, namespace: Seq<char>)
    requires
        resolved(raw, namespace) is Some,
    ensures
        resolved(raw, namespace).unwrap().valid(),
        resolved(raw, namespace).unwrap().namespace == namespace,
        resolved(resolved(raw, namespace).unwrap().text(), namespace) == resolved(raw, namespace),
{
    lemma_resolve_canonical(resolved(raw, namespace).unwrap());
}

/// The mathematical value of a [`Reference`].
pub enum ReferenceView {
    Managed(TagView),
    Opaque(Seq<char>),
}

impl ReferenceView {
    /// The text that stands for the reference in generated output.
    pub open spec fn text(self) -> Seq<char> {
        match self {
            ReferenceView::Managed(tag) => tag.text(),
            ReferenceView::Opaque(raw) => raw,
        }
    }
}

/// Whether the text before the first `/` of the reference is the namespace.
pub open spec fn in_namespace(raw: Seq<char>, namespace: Seq<char>) -> bool {
    match first_position(raw, '/') {
        Some(p) => raw.take(p) == namespace,
        None => false,
    }
}

/// What a reference to a base image is under a namespace: managed where it
/// lies in the namespace, where it has to resolve, and opaque everywhere else.
pub open spec fn classified(raw: Seq<char>, namespace: Seq<char>) -> Option<ReferenceView> {
    if in_namespace(raw, namespace) {
        match resolved(raw, namespace) {
            Some(tag) => Some(ReferenceView::Managed(tag)),
            None => None,
        }
    } else {
        Some(ReferenceView::Opaque(raw))
    }
}

/// A reference to a base image, resolved once when its stage is built up.
#[derive(Debug, PartialEq, Eq)]
pub enum Reference {
    /// An image that has a definition of its own in the active namespace.
    Managed(Tag),
    /// Any other image; its text is passed on as it was written.
    Opaque(String),
}

impl View for Reference {
    type V = ReferenceView;

    open spec fn view(&self) -> ReferenceView {
        match self {
            Reference::Managed(tag) => ReferenceView::Managed(tag@),
            Reference::Opaque(raw) => ReferenceView::Opaque(raw@),
        }
    }
}

impl Clone for Reference {
    fn clone(&self) -> (copy: Self)
        ensures
            copy@ == self@,
    {
        match self {
            Reference::Managed(tag) => Reference::Managed(tag.clone()),
            Reference::Opaque(raw) => Reference::Opaque(raw.clone()),
        }
    }
}

impl Reference {
    /// Classifies a raw base reference under a namespace.
    ///
    /// A reference outside the namespace is opaque and never an error. One
    /// inside it has to resolve, and fails with `InvalidTagFormat` otherwise.
    pub fn classify(raw: &str, namespace: &str) -> (r: Result<Reference, TagError>)
        ensures
            match r {
                Ok(reference) => {
                    &&& classified(raw@, namespace@) == Some(reference@)
                    &&& reference@.text() == raw@
                    &&& reference matches Reference::Managed(tag) ==> tag@.valid()
                        && tag@.namespace == namespace@
                },
                Err(error) => {
                    &&& classified(raw@, namespace@) is None
                    &&& error is InvalidTagFormat
                    &&& error.reference() == raw@
                },
            },
    {
        let chars = chars_of(raw);
        let inside = match find_char(&chars, '/') {
            Some(p) => {
                let prefix = raw.substring_char(0, p);
                assert(prefix@ == raw@.take(p as int));
                str_eq(prefix, namespace)
            },
            None => false,
        };
        if inside {
            match Tag::resolve(raw, namespace) {
                Ok(tag) => {
                    proof {
                        let p = first_position(raw@, '/').unwrap();
                        assert(raw@ =~= raw@.take(p) + seq!['/'] + raw@.skip(p + 1));
                    }
                    Ok(Reference::Managed(tag))
                },
                Err(error) => Err(error),
            }
        } else {
            Ok(Reference::Opaque(String::from_str(raw)))
        }
    }

    /// The text that stands for the reference in generated output.
    pub fn as_str(&self) -> (text: &str)
        ensures
            text@ == self@.text(),
    {
        match self {
            Reference::Managed(tag) => tag.as_str(),
            Reference::Opaque(raw) => raw.as_str(),
        }
    }

    /// The tag, where the reference is managed.
    pub fn managed(&self) -> (tag: Option<&Tag>)
        ensures
            match tag {
                Some(tag) => self@ == ReferenceView::Managed(tag@) && tag@.valid(),
                None => self@ is Opaque,
            },
    {
        match self {
            Reference::Managed(tag) => {
                proof {
                    use_type_invariant(tag);
                }
                Some(tag)
            },
            Reference::Opaque(_) => None,
        }
    }
}

/// Establishes the namespace of a build from the configuration and the root
/// reference. Fails with `MissingNamespace` exactly when none is configured
/// and the root reference holds no `/`.
pub fn establish_namespace(configured: Option<&str>, root: &str) -> (r: Result<String, TagError>)
    ensures
        match r {
            Ok(namespace) => established_namespace(
                match configured {
                    Some(c) => Some(c@),
                    None => None,
                },
                root@,
            ) == Some(namespace@),
            Err(error) => {
                &&& configured is None
                &&& first_position(root@, '/') is None
                &&& error is MissingNamespace
                &&& error.reference() == root@
            },
        },
{
    match configured {
        Some(namespace) => Ok(String::from_str(namespace)),
        None => {
            let chars = chars_of(root);
            match find_char(&chars, '/') {
                Some(p) => {
                    let prefix = root.substring_char(0, p);
                    assert(prefix@ == root@.take(p as int));
                    Ok(String::from_str(prefix))
                },
                None => Err(TagError::MissingNamespace(String::from_str(root))),
            }
        },
    }
}

} // verus!
