//! Paths as text.
//!
//! A path is any text; components are set apart by [`FILEPATH_SEPARATOR`].
//! Nothing is normalised.

use vstd::prelude::*;
use vstd::string::{StrSliceExecFns, StringExecFns};

verus! {

pub const FILEPATH_SEPARATOR: char = '/';

#[derive(Debug, Copy, Clone, PartialEq, Eq, Structural)]
pub struct PathNotAbsoluteError;

/// Starts with a separator.
pub open spec fn is_absolute_text(text: Seq<char>) -> bool {
    text.len() > 0 && text[0] == FILEPATH_SEPARATOR
}

/// Ends with a separator.
pub open spec fn ends_with_separator(text: Seq<char>) -> bool {
    text.len() > 0 && text.last() == FILEPATH_SEPARATOR
}

/// Where the last separator stands.
pub open spec fn last_separator(text: Seq<char>) -> Option<int>
    decreases text.len(),
{
    if text.len() == 0 {
        None
    } else if text.last() == FILEPATH_SEPARATOR {
        Some(text.len() - 1)
    } else {
        last_separator(text.drop_last())
    }
}

/// What follows the last separator, if that is anything.
pub open spec fn file_name_of(text: Seq<char>) -> Option<Seq<char>> {
    let from = match last_separator(text) {
        Some(at) => at + 1,
        None => 0,
    };
    if from == text.len() {
        None
    } else {
        Some(text.subrange(from, text.len() as int))
    }
}

/// What precedes the last separator. The root is its own prefix and has no
/// parent; a text without separator has none either.
pub open spec fn parent_of(text: Seq<char>) -> Option<Seq<char>> {
    match last_separator(text) {
        None => None,
        Some(at) => if at > 0 {
            Some(text.subrange(0, at))
        } else if text.len() > 1 {
            Some(text.subrange(0, 1))
        } else {
            None
        },
    }
}

/// `base` with `component` behind a separator. A separator at the end of `base`
/// serves, unless the component is empty.
pub open spec fn joined(base: Seq<char>, component: Seq<char>) -> Seq<char> {
    if ends_with_separator(base) && component.len() > 0 {
        base + component
    } else {
        base.push(FILEPATH_SEPARATOR) + component
    }
}

/// Text that a path can be made of.
pub trait IntoText: Sized {
    spec fn text(self) -> Seq<char>;

    fn into_text(self) -> (text: String)
        ensures
            text@ == self.text(),
    ;
}

impl IntoText for &str {
    open spec fn text(self) -> Seq<char> {
        self@
    }

    fn into_text(self) -> (text: String) {
        String::from_str(self)
    }
}

impl IntoText for String {
    open spec fn text(self) -> Seq<char> {
        self@
    }

    fn into_text(self) -> (text: String) {
        self
    }
}

/// What can be pushed onto a path.
pub trait AsPath {
    spec fn path_text(&self) -> Seq<char>;

    fn as_path(&self) -> (path: Path<'_>)
        ensures
            path@ == self.path_text(),
    ;
}

/// A borrowed path. Its view is its text.
#[derive(Debug, Clone, Copy, PartialEq, Eq)]
pub struct Path<'a> {
    inner: &'a str,
}

impl<'a> View for Path<'a> {
    type V = Seq<char>;

    closed spec fn view(&self) -> Seq<char> {
        self.inner@
    }
}

impl<'a> Path<'a> {
    pub fn new(text: &'a str) -> (path: Path<'a>)
        ensures
            path@ == text@,
    {
        Path { inner: text }
    }

    pub fn as_str(&self) -> (text: &'a str)
        ensures
            text@ == self@,
    {
        self.inner
    }

    pub fn is_empty(&self) -> (empty: bool)
        ensures
            empty == (self@.len() == 0),
    {
        self.inner.unicode_len() == 0
    }

    pub fn is_absolute(&self) -> (absolute: bool)
        ensures
            absolute == is_absolute_text(self@),
    {
        self.inner.unicode_len() > 0 && self.inner.get_char(0) == FILEPATH_SEPARATOR
    }

    fn find_last_separator(&self) -> (at: Option<usize>)
        ensures
            match at {
                Some(at) => last_separator(self@) == Some(at as int) && at < self@.len(),
                None => last_separator(self@) is None,
            },
    {
        let mut end: usize = self.inner.unicode_len();
        assert(self@.subrange(0, end as int) =~= self@);
        while end > 0
            invariant
                end <= self@.len(),
                last_separator(self@.subrange(0, end as int)) == last_separator(self@),
            decreases end,
        {
            let ghost here = self@.subrange(0, end as int);
            assert(here.last() == self@[end - 1]);
            assert(here.drop_last() =~= self@.subrange(0, end - 1));
            if self.inner.get_char(end - 1) == FILEPATH_SEPARATOR {
                return Some(end - 1);
            }
            end = end - 1;
        }
        None
    }

    /// The last component.
    pub fn file_name(&self) -> (name: Option<&'a str>)
        ensures
            match name {
                Some(name) => file_name_of(self@) == Some(name@),
                None => file_name_of(self@) is None,
            },
    {
        let len: usize = self.inner.unicode_len();
        let from: usize = match self.find_last_separator() {
            Some(at) => at + 1,
            None => 0,
        };
        if from == len {
            None
        } else {
            Some(self.inner.substring_char(from, len))
        }
    }

    /// The path without its last component.
    pub fn parent(&self) -> (parent: Option<Path<'a>>)
        ensures
            match parent {
                Some(parent) => parent_of(self@) == Some(parent@),
                None => parent_of(self@) is None,
            },
    {
        match self.find_last_separator() {
            None => None,
            Some(at) => {
                if at > 0 {
                    Some(Path::new(self.inner.substring_char(0, at)))
                } else if self.inner.unicode_len() > 1 {
                    Some(Path::new(self.inner.substring_char(0, 1)))
                } else {
                    None
                }
            },
        }
    }
}

impl<'a> AsPath for Path<'a> {
    open spec fn path_text(&self) -> Seq<char> {
        self@
    }

    fn as_path(&self) -> (path: Path<'_>) {
        Path { inner: self.inner }
    }
}

impl AsPath for &str {
    open spec fn path_text(&self) -> Seq<char> {
        (*self)@
    }

    fn as_path(&self) -> (path: Path<'_>) {
        Path { inner: self }
    }
}

/// An owned path. Its view is its text.
#[derive(Debug, PartialEq, Eq, PartialOrd, Ord, Hash)]
pub struct OwnedPath {
    inner: String,
}

impl View for OwnedPath {
    type V = Seq<char>;

    closed spec fn view(&self) -> Seq<char> {
        self.inner@
    }
}

impl Clone for OwnedPath {
    fn clone(&self) -> (path: Self)
        ensures
            path@ == self@,
    {
        OwnedPath { inner: self.inner.clone() }
    }
}

impl AsPath for OwnedPath {
    open spec fn path_text(&self) -> Seq<char> {
        self@
    }

    fn as_path(&self) -> (path: Path<'_>) {
        Path { inner: self.inner.as_str() }
    }
}

impl OwnedPath {
    pub fn new<S: IntoText>(s: S) -> (path: Self)
        ensures
            path@ == s.text(),
    {
        OwnedPath { inner: s.into_text() }
    }

    #[must_use]
    pub fn as_str(&self) -> (text: &str)
        ensures
            text@ == self@,
    {
        self.inner.as_str()
    }

    /// The text as a string of its own.
    pub fn to_string(&self) -> (text: String)
        ensures
            text@ == self@,
    {
        self.inner.clone()
    }

    pub fn is_absolute(&self) -> (absolute: bool)
        ensures
            absolute == is_absolute_text(self@),
    {
        self.as_path().is_absolute()
    }

    /// The last component.
    pub fn file_name(&self) -> (name: Option<&str>)
        ensures
            match name {
                Some(name) => file_name_of(self@) == Some(name@),
                None => file_name_of(self@) is None,
            },
    {
        self.as_path().file_name()
    }

    /// The path without its last component.
    pub fn parent(&self) -> (parent: Option<Path<'_>>)
        ensures
            match parent {
                Some(parent) => parent_of(self@) == Some(parent@),
                None => parent_of(self@) is None,
            },
    {
        self.as_path().parent()
    }

    /// Append text to the last component.
    pub fn append_str(&mut self, other: &str)
        ensures
            final(self)@ == old(self)@ + other@,
    {
        self.inner.append(other);
    }

    /// Append a component. An empty path becomes absolute.
    pub fn push<P: AsPath>(&mut self, other: P)
        ensures
            final(self)@ == joined(old(self)@, other.path_text()),
    {
        let other = other.as_path();
        let ghost before = self@;
        let len: usize = self.inner.as_str().unicode_len();
        let ends = len > 0 && self.inner.as_str().get_char(len - 1) == FILEPATH_SEPARATOR;
        if !ends || other.is_empty() {
            self.inner.append("/");
            proof {
                reveal_strlit("/");
                assert("/"@ =~= seq!['/']);
                assert(self@ =~= before.push(FILEPATH_SEPARATOR));
            }
        }
        self.inner.append(other.as_str());
    }
}

/// An owned path that starts with a separator.
#[derive(Debug, PartialEq, Eq, PartialOrd, Ord, Hash)]
pub struct AbsoluteOwnedPath {
    path: OwnedPath,
}

impl View for AbsoluteOwnedPath {
    type V = Seq<char>;

    closed spec fn view(&self) -> Seq<char> {
        self.path@
    }
}

impl Clone for AbsoluteOwnedPath {
    fn clone(&self) -> (path: Self)
        ensures
            path@ == self@,
    {
        proof {
            use_type_invariant(self);
        }
        AbsoluteOwnedPath { path: self.path.clone() }
    }
}

impl AbsoluteOwnedPath {
    #[verifier::type_invariant]
    spec fn starts_at_root(&self) -> bool {
        is_absolute_text(self.path@)
    }

    /// The path, if it is absolute.
    pub fn try_new(path: OwnedPath) -> (result: Result<Self, PathNotAbsoluteError>)
        ensures
            is_absolute_text(path@) ==> result is Ok && result->Ok_0@ == path@,
            !is_absolute_text(path@) ==> result == Err::<AbsoluteOwnedPath, PathNotAbsoluteError>(
                PathNotAbsoluteError,
            ),
    {
        if path.is_absolute() {
            Ok(AbsoluteOwnedPath { path })
        } else {
            Err(PathNotAbsoluteError)
        }
    }

    /// The text, which starts with a separator however the path came about.
    pub fn as_str(&self) -> (text: &str)
        ensures
            text@ == self@,
            is_absolute_text(text@),
    {
        proof {
            use_type_invariant(self);
        }
        self.path.as_str()
    }

    /// Append a component.
    pub fn push<P: AsPath>(&mut self, other: P)
        ensures
            final(self)@ == joined(old(self)@, other.path_text()),
    {
        proof {
            use_type_invariant(&*self);
        }
        let mut path = self.path.clone();
        path.push(other);
        *self = AbsoluteOwnedPath { path };
    }
}

/// Law: pushing a component keeps an absolute path absolute, and the old path
/// is a prefix of the new one.
pub proof fn law_push_keeps_prefix(base: Seq<char>, component: Seq<char>)
    ensures
        is_absolute_text(base) ==> is_absolute_text(joined(base, component)),
        base.len() == 0 ==> is_absolute_text(joined(base, component)),
        joined(base, component).subrange(0, base.len() as int) == base,
{
    assert(joined(base, component).subrange(0, base.len() as int) =~= base);
}

/// The last separator is one, and none follows it.
proof fn lemma_last_separator(text: Seq<char>)
    ensures
        match last_separator(text) {
            Some(at) => {
                &&& 0 <= at < text.len()
                &&& text[at] == FILEPATH_SEPARATOR
                &&& forall|i: int| at < i < text.len() ==> text[i] != FILEPATH_SEPARATOR
            },
            None => forall|i: int| 0 <= i < text.len() ==> text[i] != FILEPATH_SEPARATOR,
        },
    decreases text.len(),
{
    if text.len() > 0 && text.last() != FILEPATH_SEPARATOR {
        let rest = text.drop_last();
        lemma_last_separator(rest);
        assert forall|i: int| 0 <= i < text.len() - 1 implies text[i] == rest[i] by {}
    }
}

proof fn lemma_last_separator_unique(text: Seq<char>, at: int)
    requires
        0 <= at < text.len(),
        text[at] == FILEPATH_SEPARATOR,
        forall|i: int| at < i < text.len() ==> text[i] != FILEPATH_SEPARATOR,
    ensures
        last_separator(text) == Some(at),
{
    lemma_last_separator(text);
}

/// Law: a plain component that was pushed is the last component of the result.
pub proof fn law_pushed_component_is_file_name(base: Seq<char>, component: Seq<char>)
    requires
        component.len() > 0,
        forall|i: int| 0 <= i < component.len() ==> component[i] != FILEPATH_SEPARATOR,
    ensures
        file_name_of(joined(base, component)) == Some(component),
{
    let path = joined(base, component);
    let at = path.len() - component.len() - 1;
    assert forall|i: int| at < i < path.len() implies path[i] != FILEPATH_SEPARATOR by {
        assert(path[i] == component[i - at - 1]);
    }
    lemma_last_separator_unique(path, at);
    assert(path.subrange(at + 1, path.len() as int) =~= component);
}

/// Law: the last separator stands where a slash is and none follows; without a slash there is
/// none.
pub proof fn law_last_separator(text: Seq<char>)
    ensures
        match last_separator(text) {
            Some(at) => {
                &&& 0 <= at < text.len()
                &&& text[at] == '/'
                &&& forall|i: int| at < i < text.len() ==> text[i] != '/'
            },
            None => forall|i: int| 0 <= i < text.len() ==> text[i] != '/',
        },
{
    lemma_last_separator(text);
}

/// Law: a path is its parent, a slash and its file name. A file name holds no slash and is
/// not empty; there is none exactly if the path is empty or ends with a slash.
pub proof fn law_path_is_parent_and_name(text: Seq<char>)
    ensures
        file_name_of(text) is None <==> text.len() == 0 || text[text.len() - 1] == '/',
        file_name_of(text) is Some ==> {
            let name = file_name_of(text)->0;
            &&& name.len() > 0
            &&& forall|i: int| 0 <= i < name.len() ==> #[trigger] name[i] != '/'
        },
        file_name_of(text) is Some && parent_of(text) is Some && parent_of(text)->0 != seq!['/']
            ==> text == parent_of(text)->0.push('/') + file_name_of(text)->0,
        parent_of(text) is None <==> text == seq!['/'] || forall|i: int|
            0 <= i < text.len() ==> text[i] != '/',
{
    lemma_last_separator(text);
    if let Some(at) = last_separator(text) {
        if at + 1 < text.len() {
            let name = text.subrange(at + 1, text.len() as int);
            assert forall|i: int| 0 <= i < name.len() implies #[trigger] name[i] != '/' by {
                assert(name[i] == text[at + 1 + i]);
            }
            if at > 0 {
                assert(text =~= text.subrange(0, at).push('/') + name);
            } else {
                assert(text.subrange(0, 1) =~= seq!['/']);
            }
        }
        if text.len() == 1 {
            assert(text =~= seq!['/']);
        }
    } else if text.len() > 0 {
        let name = text.subrange(0, text.len() as int);
        assert(name =~= text);
    }
}

/// Law: joining puts one slash between base and component, unless the base ends with one that
/// serves; an empty component always gets its own.
pub proof fn law_joining(base: Seq<char>, component: Seq<char>)
    ensures
        base.len() > 0 && base[base.len() - 1] == '/' && component.len() > 0 ==> joined(
            base,
            component,
        ) == base + component,
        base.len() == 0 || base[base.len() - 1] != '/' ==> joined(base, component) == base
            + seq!['/'] + component,
        component.len() == 0 ==> joined(base, component) == base.push('/'),
        is_absolute_text(base) <==> base.len() > 0 && base[0] == '/',
{
    assert(base.push('/') + component =~= base + seq!['/'] + component);
    if component.len() == 0 {
        assert(base.push('/') + component =~= base.push('/'));
    }
}

} // verus!
