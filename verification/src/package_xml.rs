//! package.xml reading (REP-140, REP-149): the manifest of a ROS2 package.
//!
//! The document is read into XML events (see `xml`); the manifest is what
//! the events say, read in order: the text of `<name>`, `<version>` and the
//! other elements, the attributes of `<package>`, `<maintainer>` and `<url>`,
//! and, inside `<export>`, `<build_type>` and `<metapackage>`.

use vstd::prelude::*;
use crate::checks::model::opt_view;
use crate::model::{
    Author, BuildType, BuildTypeSpec, Dependency, DependencyRole, Maintainer, PackageManifest,
    PackageUrl, dep_views, spec_build_type,
};
use crate::text::{chars_eq_str, chars_of, parse_u32, parse_u32_chars, push_str, str_views, string_of, trim, trim_chars};
use crate::xml::{
    XmlKind, attr_get, attr_lookup, attribute_views, event_views, read_xml_attributes,
    read_xml_events, string_pairs, xml_read,
};

verus! {

/// Errors of the package.xml reader.
#[derive(Debug)]
pub enum PackageXmlError {
    /// The file could not be read.
    Io(String),
    /// The content is not a package manifest.
    Xml(String),
}

impl PackageXmlError {
    /// The error as a line of text.
    pub fn message(&self) -> (r: String)
        ensures
            r@ == match self {
                PackageXmlError::Io(e) => "failed to read file: "@ + e@,
                PackageXmlError::Xml(e) => "failed to parse XML: "@ + e@,
            },
    {
        let mut m: Vec<char> = Vec::new();
        match self {
            PackageXmlError::Io(e) => {
                push_str(&mut m, "failed to read file: ");
                push_str(&mut m, e.as_str());
            },
            PackageXmlError::Xml(e) => {
                push_str(&mut m, "failed to parse XML: ");
                push_str(&mut m, e.as_str());
            },
        }
        string_of(m.as_slice())
    }
}

/// What the reader knows after some of the events.
pub struct PkgXmlState {
    pub format: u32,
    pub name: Option<Seq<char>>,
    pub version: Option<Seq<char>>,
    pub description: Option<Seq<char>>,
    /// (email, name)
    pub maintainers: Seq<(Option<Seq<char>>, Seq<char>)>,
    pub license: Option<Seq<char>>,
    /// (type, url)
    pub urls: Seq<(Seq<char>, Seq<char>)>,
    /// (email, name)
    pub authors: Seq<(Option<Seq<char>>, Seq<char>)>,
    pub deps: Seq<(Seq<char>, DependencyRole)>,
    pub build_types: Seq<BuildTypeSpec>,
    pub groups: Seq<Seq<char>>,
    pub is_metapackage: bool,
    /// The element whose text comes next (none after an end tag)
    pub current_tag: Option<Seq<char>>,
    pub in_export: bool,
    /// The attributes of the last start tag
    pub attrs: Seq<(Seq<char>, Seq<char>)>,
}

/// Nothing read yet: format 2 until `<package format="...">` says otherwise.
pub open spec fn initial_pkg_state() -> PkgXmlState {
    PkgXmlState {
        format: 2,
        name: None,
        version: None,
        description: None,
        maintainers: Seq::empty(),
        license: None,
        urls: Seq::empty(),
        authors: Seq::empty(),
        deps: Seq::empty(),
        build_types: Seq::empty(),
        groups: Seq::empty(),
        is_metapackage: false,
        current_tag: None,
        in_export: false,
        attrs: Seq::empty(),
    }
}

/// The dependency role of a dependency element.
pub open spec fn dep_role_of_tag(tag: Seq<char>) -> Option<DependencyRole> {
    if tag == "build_depend"@ {
        Some(DependencyRole::Build)
    } else if tag == "buildtool_depend"@ {
        Some(DependencyRole::BuildTool)
    } else if tag == "build_export_depend"@ {
        Some(DependencyRole::BuildExport)
    } else if tag == "exec_depend"@ || tag == "run_depend"@ {
        Some(DependencyRole::Exec)
    } else if tag == "test_depend"@ {
        Some(DependencyRole::Test)
    } else if tag == "doc_depend"@ {
        Some(DependencyRole::Doc)
    } else if tag == "depend"@ {
        Some(DependencyRole::Depend)
    } else {
        None
    }
}

/// What a (trimmed, non-empty) text does inside element `tag`.
pub open spec fn pkg_text(st: PkgXmlState, tag: Seq<char>, text: Seq<char>) -> PkgXmlState {
    if tag == "name"@ {
        PkgXmlState { name: Some(text), ..st }
    } else if tag == "version"@ {
        PkgXmlState { version: Some(text), ..st }
    } else if tag == "description"@ {
        PkgXmlState { description: Some(text), ..st }
    } else if tag == "license"@ {
        PkgXmlState { license: Some(text), ..st }
    } else if tag == "maintainer"@ {
        PkgXmlState { maintainers: st.maintainers.push((attr_lookup(st.attrs, "email"@), text)), ..st }
    } else if tag == "author"@ {
        PkgXmlState { authors: st.authors.push((attr_lookup(st.attrs, "email"@), text)), ..st }
    } else if tag == "url"@ {
        let t = match attr_lookup(st.attrs, "type"@) {
            Some(t) => t,
            None => "website"@,
        };
        PkgXmlState { urls: st.urls.push((t, text)), ..st }
    } else if dep_role_of_tag(tag) is Some {
        PkgXmlState { deps: st.deps.push((text, dep_role_of_tag(tag).unwrap())), ..st }
    } else if tag == "member_of_group"@ {
        PkgXmlState { groups: st.groups.push(text), ..st }
    } else if tag == "metapackage"@ && st.in_export {
        PkgXmlState { is_metapackage: true, ..st }
    } else if tag == "build_type"@ && st.in_export {
        PkgXmlState { build_types: st.build_types.push(spec_build_type(text)), ..st }
    } else {
        st
    }
}

/// The format a `<package>` tag with these attributes declares: its
/// `format` attribute as a number, 2 where that does not parse.
pub open spec fn declared_format(st: PkgXmlState, attrs: Seq<(Seq<char>, Seq<char>)>) -> u32 {
    match attr_lookup(attrs, "format"@) {
        Some(f) => match parse_u32(f) {
            Some(n) => n,
            None => 2,
        },
        None => st.format,
    }
}

/// What one event does.
pub open spec fn pkg_step(
    st: PkgXmlState,
    ev: (XmlKind, Seq<char>),
    attrs: Seq<(Seq<char>, Seq<char>)>,
) -> PkgXmlState {
    match ev.0 {
        XmlKind::Start => PkgXmlState {
            current_tag: Some(ev.1),
            in_export: st.in_export || ev.1 == "export"@,
            attrs,
            format: if ev.1 == "package"@ {
                declared_format(st, attrs)
            } else {
                st.format
            },
            ..st
        },
        XmlKind::End => PkgXmlState {
            current_tag: None,
            in_export: if ev.1 == "export"@ {
                false
            } else {
                st.in_export
            },
            ..st
        },
        XmlKind::Text => {
            let t = trim(ev.1);
            match st.current_tag {
                Some(tag) => if t.len() == 0 {
                    st
                } else {
                    pkg_text(st, tag, t)
                },
                None => st,
            }
        },
        _ => st,
    }
}

/// What the events say, read in order.
pub open spec fn pkg_fold(
    evs: Seq<(XmlKind, Seq<char>)>,
    attrs: Seq<Seq<(Seq<char>, Seq<char>)>>,
) -> PkgXmlState
    decreases evs.len(),
{
    if evs.len() == 0 {
        initial_pkg_state()
    } else {
        pkg_step(
            pkg_fold(evs.drop_last(), attrs),
            evs.last(),
            attrs[evs.len() - 1],
        )
    }
}

proof fn lemma_reveal_tags()
    ensures
        "name"@ =~= seq!['n', 'a', 'm', 'e'],
        "version"@ =~= seq!['v', 'e', 'r', 's', 'i', 'o', 'n'],
        "description"@.len() == 11,
        "license"@ =~= seq!['l', 'i', 'c', 'e', 'n', 's', 'e'],
        "maintainer"@.len() == 10,
        "author"@ =~= seq!['a', 'u', 't', 'h', 'o', 'r'],
        "url"@.len() == 3,
        "build_depend"@.len() == 12,
        "buildtool_depend"@.len() == 16,
        "build_export_depend"@.len() == 19,
        "exec_depend"@ =~= seq!['e', 'x', 'e', 'c', '_', 'd', 'e', 'p', 'e', 'n', 'd'],
        "run_depend"@ =~= seq!['r', 'u', 'n', '_', 'd', 'e', 'p', 'e', 'n', 'd'],
        "test_depend"@ =~= seq!['t', 'e', 's', 't', '_', 'd', 'e', 'p', 'e', 'n', 'd'],
        "doc_depend"@ =~= seq!['d', 'o', 'c', '_', 'd', 'e', 'p', 'e', 'n', 'd'],
        "depend"@ =~= seq!['d', 'e', 'p', 'e', 'n', 'd'],
        "description"@ =~= seq!['d', 'e', 's', 'c', 'r', 'i', 'p', 't', 'i', 'o', 'n'],
        "maintainer"@ =~= seq!['m', 'a', 'i', 'n', 't', 'a', 'i', 'n', 'e', 'r'],
        "build_depend"@ =~= seq!['b', 'u', 'i', 'l', 'd', '_', 'd', 'e', 'p', 'e', 'n', 'd'],
        "buildtool_depend"@ =~= seq![
            'b', 'u', 'i', 'l', 'd', 't', 'o', 'o', 'l', '_', 'd', 'e', 'p', 'e', 'n', 'd',
        ],
        "build_export_depend"@ =~= seq![
            'b', 'u', 'i', 'l', 'd', '_', 'e', 'x', 'p', 'o', 'r', 't', '_', 'd', 'e', 'p', 'e', 'n', 'd',
        ],
{
    reveal_strlit("name");
    reveal_strlit("version");
    reveal_strlit("description");
    reveal_strlit("license");
    reveal_strlit("maintainer");
    reveal_strlit("author");
    reveal_strlit("url");
    reveal_strlit("build_depend");
    reveal_strlit("buildtool_depend");
    reveal_strlit("build_export_depend");
    reveal_strlit("exec_depend");
    reveal_strlit("run_depend");
    reveal_strlit("test_depend");
    reveal_strlit("doc_depend");
    reveal_strlit("depend");
}

/// Reading a dependency element `<tag>text</tag>` after any events appends
/// (the trimmed text, the element's role) to the package's dependencies,
/// where the trimmed text is non-empty: `<depend>` gives `Depend` (a build and
/// an execution dependency), `<build_depend>` gives `Build`, `<exec_depend>`
/// and `<run_depend>` give `Exec`, `<test_depend>` gives `Test`, `<doc_depend>`
/// gives `Doc`, `<buildtool_depend>` gives `BuildTool` and
/// `<build_export_depend>` gives `BuildExport`.
pub proof fn lemma_dependency_element(
    evs: Seq<(XmlKind, Seq<char>)>,
    attrs: Seq<Seq<(Seq<char>, Seq<char>)>>,
    tag: Seq<char>,
    role: DependencyRole,
    x: Seq<char>,
)
    requires
        trim(x).len() > 0,
        (tag == seq!['d', 'e', 'p', 'e', 'n', 'd'] && role == DependencyRole::Depend) || (tag
            == seq!['b', 'u', 'i', 'l', 'd', '_', 'd', 'e', 'p', 'e', 'n', 'd'] && role
            == DependencyRole::Build) || (tag == seq!['e', 'x', 'e', 'c', '_', 'd', 'e', 'p', 'e', 'n', 'd']
            && role == DependencyRole::Exec) || (tag == seq!['r', 'u', 'n', '_', 'd', 'e', 'p', 'e', 'n', 'd']
            && role == DependencyRole::Exec) || (tag == seq!['t', 'e', 's', 't', '_', 'd', 'e', 'p', 'e', 'n', 'd']
            && role == DependencyRole::Test) || (tag == seq!['d', 'o', 'c', '_', 'd', 'e', 'p', 'e', 'n', 'd']
            && role == DependencyRole::Doc) || (tag == seq![
            'b', 'u', 'i', 'l', 'd', 't', 'o', 'o', 'l', '_', 'd', 'e', 'p', 'e', 'n', 'd',
        ] && role == DependencyRole::BuildTool) || (tag == seq![
            'b', 'u', 'i', 'l', 'd', '_', 'e', 'x', 'p', 'o', 'r', 't', '_', 'd', 'e', 'p', 'e', 'n', 'd',
        ] && role == DependencyRole::BuildExport),
    ensures
        pkg_fold(evs + seq![(XmlKind::Start, tag), (XmlKind::Text, x), (XmlKind::End, tag)], attrs).deps
            == pkg_fold(evs, attrs).deps.push((trim(x), role)),
{
    lemma_reveal_tags();
    let e3 = evs + seq![(XmlKind::Start, tag), (XmlKind::Text, x), (XmlKind::End, tag)];
    let e2 = evs + seq![(XmlKind::Start, tag), (XmlKind::Text, x)];
    let e1 = evs + seq![(XmlKind::Start, tag)];
    assert(e3.drop_last() =~= e2);
    assert(e2.drop_last() =~= e1);
    assert(e1.drop_last() =~= evs);
    assert(e3.last() == (XmlKind::End, tag));
    assert(e2.last() == (XmlKind::Text, x));
    assert(e1.last() == (XmlKind::Start, tag));
    let s1 = pkg_fold(e1, attrs);
    assert(s1.current_tag == Some(tag));
    assert(s1.deps == pkg_fold(evs, attrs).deps);
    assert(dep_role_of_tag(tag) == Some(role));
    assert(pkg_fold(e2, attrs) == pkg_text(s1, tag, trim(x)));
}

/// The (email, name) values of maintainers.
pub open spec fn maintainer_views(v: Seq<Maintainer>) -> Seq<(Option<Seq<char>>, Seq<char>)> {
    v.map_values(|m: Maintainer| (opt_view(m.email), m.name@))
}

/// The (email, name) values of authors.
pub open spec fn author_views(v: Seq<Author>) -> Seq<(Option<Seq<char>>, Seq<char>)> {
    v.map_values(|m: Author| (opt_view(m.email), m.name@))
}

/// The (type, url) values of urls.
pub open spec fn url_views(v: Seq<PackageUrl>) -> Seq<(Seq<char>, Seq<char>)> {
    v.map_values(|u: PackageUrl| (u.url_type@, u.url@))
}

/// The values of build types.
pub open spec fn build_type_views(v: Seq<BuildType>) -> Seq<BuildTypeSpec> {
    v.map_values(|b: BuildType| b@)
}

/// The manifest holds what the final state says; a missing version is `0.0.0`.
pub open spec fn manifest_of_state(m: PackageManifest, st: PkgXmlState) -> bool {
    &&& st.name == Some(m.name@)
    &&& m.format == st.format
    &&& m.version@ == match st.version {
        Some(v) => v,
        None => "0.0.0"@,
    }
    &&& opt_view(m.description) == st.description
    &&& maintainer_views(m.maintainers@) == st.maintainers
    &&& opt_view(m.license) == st.license
    &&& url_views(m.urls@) == st.urls
    &&& author_views(m.authors@) == st.authors
    &&& dep_views(m.dependencies@) == st.deps
    &&& build_type_views(m.build_types@) == st.build_types
    &&& str_views(m.member_of_groups@) == st.groups
    &&& m.is_metapackage == st.is_metapackage
}

/// What reading a manifest from these events gives: the reader's error where
/// reading stopped at one, `missing <name>` where no name was read, else the
/// manifest of the events.
pub open spec fn manifest_result(
    evs: Seq<(XmlKind, Seq<char>)>,
    attrs: Seq<Seq<(Seq<char>, Seq<char>)>>,
    error: Option<Seq<char>>,
    r: Result<PackageManifest, String>,
) -> bool {
    match r {
        Ok(m) => error is None && manifest_of_state(m, pkg_fold(evs, attrs)),
        Err(e) => match error {
            Some(x) => e@ == "XML parse error: "@ + x,
            None => pkg_fold(evs, attrs).name is None && e@ == "missing <name>"@,
        },
    }
}

struct PkgBuilder {
    format: u32,
    name: Option<String>,
    version: Option<String>,
    description: Option<String>,
    maintainers: Vec<Maintainer>,
    license: Option<String>,
    urls: Vec<PackageUrl>,
    authors: Vec<Author>,
    deps: Vec<Dependency>,
    build_types: Vec<BuildType>,
    groups: Vec<String>,
    is_metapackage: bool,
    current_tag: Option<String>,
    in_export: bool,
    attrs: Vec<(String, String)>,
}

impl View for PkgBuilder {
    type V = PkgXmlState;

    closed spec fn view(&self) -> PkgXmlState {
        PkgXmlState {
            format: self.format,
            name: opt_view(self.name),
            version: opt_view(self.version),
            description: opt_view(self.description),
            maintainers: maintainer_views(self.maintainers@),
            license: opt_view(self.license),
            urls: url_views(self.urls@),
            authors: author_views(self.authors@),
            deps: dep_views(self.deps@),
            build_types: build_type_views(self.build_types@),
            groups: str_views(self.groups@),
            is_metapackage: self.is_metapackage,
            current_tag: opt_view(self.current_tag),
            in_export: self.in_export,
            attrs: string_pairs(self.attrs@),
        }
    }
}

fn copy_pairs(v: &Vec<(String, String)>) -> (r: Vec<(String, String)>)
    ensures
        string_pairs(r@) == string_pairs(v@),
{
    let mut r: Vec<(String, String)> = Vec::new();
    let mut i: usize = 0;
    while i < v.len()
        invariant
            i <= v@.len(),
            string_pairs(r@) == string_pairs(v@).take(i as int),
        decreases v.len() - i,
    {
        let ghost before = r@;
        r.push((v[i].0.clone(), v[i].1.clone()));
        assert(string_pairs(r@) =~= string_pairs(before).push((v@[i as int].0@, v@[i as int].1@)));
        i += 1;
        assert(string_pairs(r@) =~= string_pairs(v@).take(i as int));
    }
    assert(string_pairs(v@).take(i as int) =~= string_pairs(v@));
    r
}

fn dep_role_exec(tag: &[char]) -> (r: Option<DependencyRole>)
    ensures
        r == dep_role_of_tag(tag@),
{
    if chars_eq_str(tag, "build_depend") {
        Some(DependencyRole::Build)
    } else if chars_eq_str(tag, "buildtool_depend") {
        Some(DependencyRole::BuildTool)
    } else if chars_eq_str(tag, "build_export_depend") {
        Some(DependencyRole::BuildExport)
    } else if chars_eq_str(tag, "exec_depend") || chars_eq_str(tag, "run_depend") {
        Some(DependencyRole::Exec)
    } else if chars_eq_str(tag, "test_depend") {
        Some(DependencyRole::Test)
    } else if chars_eq_str(tag, "doc_depend") {
        Some(DependencyRole::Doc)
    } else if chars_eq_str(tag, "depend") {
        Some(DependencyRole::Depend)
    } else {
        None
    }
}

impl PkgBuilder {
    fn new() -> (r: Self)
        ensures
            r@ == initial_pkg_state(),
    {
        let r = PkgBuilder {
            format: 2,
            name: None,
            version: None,
            description: None,
            maintainers: Vec::new(),
            license: None,
            urls: Vec::new(),
            authors: Vec::new(),
            deps: Vec::new(),
            build_types: Vec::new(),
            groups: Vec::new(),
            is_metapackage: false,
            current_tag: None,
            in_export: false,
            attrs: Vec::new(),
        };
        assert(maintainer_views(r.maintainers@) =~= Seq::empty());
        assert(url_views(r.urls@) =~= Seq::empty());
        assert(author_views(r.authors@) =~= Seq::empty());
        assert(dep_views(r.deps@) =~= Seq::empty());
        assert(build_type_views(r.build_types@) =~= Seq::empty());
        assert(str_views(r.groups@) =~= Seq::empty());
        assert(string_pairs(r.attrs@) =~= Seq::empty());
        r
    }

    fn text(&mut self, tag: &[char], text: String)
        ensures
            final(self)@ == pkg_text(old(self)@, tag@, text@),
    {
        let ghost st = self@;
        if chars_eq_str(tag, "name") {
            self.name = Some(text);
        } else if chars_eq_str(tag, "version") {
            self.version = Some(text);
        } else if chars_eq_str(tag, "description") {
            self.description = Some(text);
        } else if chars_eq_str(tag, "license") {
            self.license = Some(text);
        } else if chars_eq_str(tag, "maintainer") {
            let email = attr_get(&self.attrs, "email");
            self.maintainers.push(Maintainer { email, name: text });
            assert(maintainer_views(self.maintainers@) =~= st.maintainers.push(
                (attr_lookup(st.attrs, "email"@), text@),
            ));
        } else if chars_eq_str(tag, "author") {
            let email = attr_get(&self.attrs, "email");
            self.authors.push(Author { email, name: text });
            assert(author_views(self.authors@) =~= st.authors.push(
                (attr_lookup(st.attrs, "email"@), text@),
            ));
        } else if chars_eq_str(tag, "url") {
            let url_type = match attr_get(&self.attrs, "type") {
                Some(t) => t,
                None => {
                    let w = chars_of("website");
                    string_of(w.as_slice())
                },
            };
            let ghost ty = url_type@;
            self.urls.push(PackageUrl { url_type, url: text });
            assert(url_views(self.urls@) =~= st.urls.push((ty, text@)));
        } else {
            match dep_role_exec(tag) {
                Some(role) => {
                    self.deps.push(Dependency { name: text, role });
                    assert(dep_views(self.deps@) =~= st.deps.push((text@, role)));
                },
                None => {
                    if chars_eq_str(tag, "member_of_group") {
                        self.groups.push(text);
                        assert(str_views(self.groups@) =~= st.groups.push(text@));
                    } else if chars_eq_str(tag, "metapackage") && self.in_export {
                        self.is_metapackage = true;
                    } else if chars_eq_str(tag, "build_type") && self.in_export {
                        let b = BuildType::from_str(text.as_str());
                        self.build_types.push(b);
                        assert(build_type_views(self.build_types@) =~= st.build_types.push(
                            spec_build_type(text@),
                        ));
                    }
                },
            }
        }
        assert(self@ =~= pkg_text(st, tag@, text@));
    }

    fn step(&mut self, kind: XmlKind, value: &String, attrs: &Vec<(String, String)>)
        ensures
            final(self)@ == pkg_step(old(self)@, (kind, value@), string_pairs(attrs@)),
    {
        let ghost st = self@;
        match kind {
            XmlKind::Start => {
                let v = chars_of(value.as_str());
                self.current_tag = Some(value.clone());
                if chars_eq_str(v.as_slice(), "export") {
                    self.in_export = true;
                }
                self.attrs = copy_pairs(attrs);
                if chars_eq_str(v.as_slice(), "package") {
                    match attr_get(attrs, "format") {
                        Some(f) => {
                            let fv = chars_of(f.as_str());
                            self.format = match parse_u32_chars(fv.as_slice()) {
                                Some(n) => n,
                                None => 2,
                            };
                        },
                        None => {},
                    }
                }
                assert(self@ =~= pkg_step(st, (kind, value@), string_pairs(attrs@)));
            },
            XmlKind::End => {
                let v = chars_of(value.as_str());
                if chars_eq_str(v.as_slice(), "export") {
                    self.in_export = false;
                }
                self.current_tag = None;
                assert(self@ =~= pkg_step(st, (kind, value@), string_pairs(attrs@)));
            },
            XmlKind::Text => {
                let v = chars_of(value.as_str());
                let t = trim_chars(v.as_slice());
                if t.len() > 0 {
                    match &self.current_tag {
                        Some(tag) => {
                            let tv = chars_of(tag.as_str());
                            self.text(tv.as_slice(), string_of(t.as_slice()));
                        },
                        None => {},
                    }
                }
            },
            _ => {},
        }
    }

    fn finish(self) -> (r: Result<PackageManifest, String>)
        ensures
            match r {
                Ok(m) => manifest_of_state(m, self@),
                Err(e) => self@.name is None && e@ == "missing <name>"@,
            },
    {
        let ghost st = self@;
        match self.name {
            None => {
                let e = chars_of("missing <name>");
                Err(string_of(e.as_slice()))
            },
            Some(name) => {
                let version = match self.version {
                    Some(v) => v,
                    None => {
                        let z = chars_of("0.0.0");
                        string_of(z.as_slice())
                    },
                };
                Ok(
                    PackageManifest {
                        format: self.format,
                        name,
                        version,
                        description: self.description,
                        maintainers: self.maintainers,
                        license: self.license,
                        urls: self.urls,
                        authors: self.authors,
                        dependencies: self.deps,
                        build_types: self.build_types,
                        member_of_groups: self.groups,
                        is_metapackage: self.is_metapackage,
                    },
                )
            },
        }
    }
}

/// The manifest that these XML events of a package.xml describe (the
/// reader's error, where reading stopped at one, makes the error).
pub fn manifest_from_events(
    events: &Vec<(XmlKind, String)>,
    attrs: &Vec<Vec<(String, String)>>,
    error: Option<String>,
) -> (r: Result<PackageManifest, String>)
    requires
        attrs@.len() == events@.len(),
    ensures
        manifest_result(event_views(events@), attribute_views(attrs@), opt_view(error), r),
{
    if let Some(e) = error {
        let mut m: Vec<char> = Vec::new();
        push_str(&mut m, "XML parse error: ");
        push_str(&mut m, e.as_str());
        assert(m@ =~= "XML parse error: "@ + e@);
        return Err(string_of(m.as_slice()));
    }
    let ghost ev = event_views(events@);
    let ghost av = attribute_views(attrs@);
    let mut b = PkgBuilder::new();
    let mut i: usize = 0;
    assert(ev.take(0) =~= Seq::<(XmlKind, Seq<char>)>::empty());
    while i < events.len()
        invariant
            i <= events@.len(),
            attrs@.len() == events@.len(),
            ev == event_views(events@),
            av == attribute_views(attrs@),
            b@ == pkg_fold(ev.take(i as int), av),
        decreases events.len() - i,
    {
        assert(ev.take(i + 1).drop_last() =~= ev.take(i as int));
        assert(ev.take(i + 1).last() == (events@[i as int].0, events@[i as int].1@));
        assert(av[i as int] == string_pairs(attrs@[i as int]@));
        b.step(events[i].0, &events[i].1, &attrs[i]);
        i += 1;
    }
    assert(ev.take(i as int) =~= ev);
    b.finish()
}

/// Reads a package.xml: the manifest, or an error where the XML does not
/// read or has no `<name>`.
pub fn parse_package_xml_str(content: &str) -> (r: Result<PackageManifest, String>)
    ensures
        manifest_result(xml_read(content@).0, xml_read(content@).1, xml_read(content@).2, r),
{
    let (events, error) = read_xml_events(content);
    let attrs = read_xml_attributes(content);
    manifest_from_events(&events, &attrs, error)
}

} // verus!
