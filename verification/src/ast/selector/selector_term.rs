//! Compound selectors: a tag with its id, classes, attribute matchers and
//! pseudo-selectors.

use vstd::prelude::*;
use vstd::string::StringExecFns;
use crate::ast::selector::attribute::{attr_parsed, attr_text, SelectorAttr, SelectorAttrView};
use crate::ast::token::symbol::{lemma_symbol_end, symbol_at, symbol_end};
use crate::parser::{ErrorKind, ParseError};
use crate::render::RenderCss;
use crate::text::{at, chars_of, is_at, substring};

verus! {

/// Pseudo-selectors can be "pseudo-class" or "pseudo-element"; the two differ
/// in how they are written only.
#[derive(Clone, Copy, Debug, PartialEq, Eq, Hash, Structural)]
pub enum PseudoMode {
    /// One colon.
    PseudoClass,
    /// Two colons.
    PseudoElement,
}

/// A pseudo-selector with its argument, where it has one.
#[derive(Debug, PartialEq, Eq, Hash)]
pub struct Pseudo {
    pub property: String,
    pub value: Option<SelectorTerm>,
    pub mode: PseudoMode,
}

/// A single compound selector. The same type serves for the term that `&`
/// begins and that is joined to the selector of the enclosing ruleset: such
/// a term has no tag.
#[derive(Debug, Default, PartialEq, Eq, Hash)]
pub struct SelectorTerm {
    pub id: Option<String>,
    pub class: Vec<String>,
    pub tag: Option<String>,
    pub attribute: Vec<SelectorAttr>,
    pub pseudo: Vec<Pseudo>,
}

/// One qualifier of a compound selector.
#[derive(Debug, PartialEq, Eq)]
pub enum SelType {
    Class(String),
    Id(String),
    Pseudo(Pseudo),
    Attr(SelectorAttr),
}

/// What a `Pseudo` stands for.
pub struct PseudoView {
    pub property: Seq<char>,
    pub value: Option<SelectorTermView>,
    pub mode: PseudoMode,
}

/// What a `SelectorTerm` stands for.
pub struct SelectorTermView {
    pub id: Option<Seq<char>>,
    pub class: Seq<Seq<char>>,
    pub tag: Option<Seq<char>>,
    pub attribute: Seq<SelectorAttrView>,
    pub pseudo: Seq<PseudoView>,
}

/// What a `SelType` stands for.
pub enum SelTypeView {
    Class(Seq<char>),
    Id(Seq<char>),
    Pseudo(PseudoView),
    Attr(SelectorAttrView),
}

/// What the pseudo-selector stands for.
pub open spec fn pseudo_view(p: Pseudo) -> PseudoView
    decreases p,
{
    PseudoView {
        property: p.property@,
        value: match p.value {
            Some(t) => Some(term_view(t)),
            None => None,
        },
        mode: p.mode,
    }
}

/// What the term stands for.
pub open spec fn term_view(t: SelectorTerm) -> SelectorTermView
    decreases t,
{
    SelectorTermView {
        id: t.id.deep_view(),
        class: t.class.deep_view(),
        tag: t.tag.deep_view(),
        attribute: t.attribute.deep_view(),
        pseudo: Seq::new(
            t.pseudo.len() as nat,
            |i: int|
                if 0 <= i < t.pseudo.len() {
                    pseudo_view(t.pseudo[i])
                } else {
                    arbitrary()
                },
        ),
    }
}

impl View for Pseudo {
    type V = PseudoView;

    open spec fn view(&self) -> PseudoView {
        pseudo_view(*self)
    }
}

impl DeepView for Pseudo {
    type V = PseudoView;

    open spec fn deep_view(&self) -> PseudoView {
        pseudo_view(*self)
    }
}

impl View for SelectorTerm {
    type V = SelectorTermView;

    open spec fn view(&self) -> SelectorTermView {
        term_view(*self)
    }
}

impl DeepView for SelectorTerm {
    type V = SelectorTermView;

    open spec fn deep_view(&self) -> SelectorTermView {
        term_view(*self)
    }
}

impl View for SelType {
    type V = SelTypeView;

    open spec fn view(&self) -> SelTypeView {
        match self {
            SelType::Class(name) => SelTypeView::Class(name@),
            SelType::Id(name) => SelTypeView::Id(name@),
            SelType::Pseudo(pseudo) => SelTypeView::Pseudo(pseudo@),
            SelType::Attr(attr) => SelTypeView::Attr(attr@),
        }
    }
}

impl DeepView for SelType {
    type V = SelTypeView;

    open spec fn deep_view(&self) -> SelTypeView {
        self@
    }
}

/// The pseudo-selectors of a term, seen through its view, are those of its
/// field.
pub proof fn lemma_term_view_pseudo(t: SelectorTerm)
    ensures
        t@.pseudo == t.pseudo.deep_view(),
{
    assert(t@.pseudo =~= t.pseudo.deep_view());
}

// ---------------------------------------------------------------------------
// The grammar
// ---------------------------------------------------------------------------
/// The term without tag or qualifier.
pub open spec fn bare_term(tag: Option<Seq<char>>) -> SelectorTermView {
    SelectorTermView { id: None, class: seq![], tag, attribute: seq![], pseudo: seq![] }
}

/// The term `t` with one more qualifier. Classes, attribute matchers and
/// pseudo-selectors are kept in the order in which they come; of the ids the
/// last one stays.
pub open spec fn with_qualifier(t: SelectorTermView, q: SelTypeView) -> SelectorTermView {
    match q {
        SelTypeView::Class(name) => SelectorTermView { class: t.class.push(name), ..t },
        SelTypeView::Id(name) => SelectorTermView { id: Some(name), ..t },
        SelTypeView::Pseudo(pseudo) => SelectorTermView { pseudo: t.pseudo.push(pseudo), ..t },
        SelTypeView::Attr(attr) => SelectorTermView { attribute: t.attribute.push(attr), ..t },
    }
}

/// The term of the given tag and qualifiers.
pub open spec fn term_of(tag: Option<Seq<char>>, qualifiers: Seq<SelTypeView>) -> SelectorTermView
    decreases qualifiers.len(),
{
    if qualifiers.len() == 0 {
        bare_term(tag)
    } else {
        with_qualifier(term_of(tag, qualifiers.drop_last()), qualifiers.last())
    }
}

/// The pseudo-selector at `pos` and its end: one or two colons, a symbol, and
/// a term in round brackets where one follows.
pub open spec fn pseudo_parsed(s: Seq<char>, pos: int) -> Option<(PseudoView, int)>
    decreases s.len() - pos, 0int,
    when 0 <= pos <= s.len()
{
    if at(s, pos, ':') {
        let (mode, name) = if at(s, pos + 1, ':') {
            (PseudoMode::PseudoElement, pos + 2)
        } else {
            (PseudoMode::PseudoClass, pos + 1)
        };
        match symbol_end(s, name) {
            Some(end) => {
                proof {
                    lemma_symbol_end(s, name);
                }
                let property = s.subrange(name, end);
                let argument = if at(s, end, '(') {
                    term_parsed(s, end + 1)
                } else {
                    None
                };
                match argument {
                    Some((term, close)) => if at(s, close, ')') {
                        Some((PseudoView { property, value: Some(term), mode }, close + 1))
                    } else {
                        Some((PseudoView { property, value: None, mode }, end))
                    },
                    None => Some((PseudoView { property, value: None, mode }, end)),
                }
            },
            None => None,
        }
    } else {
        None
    }
}

/// The qualifier at `pos` and its end: `.` and a symbol, `#` and a symbol, a
/// pseudo-selector or an attribute matcher.
pub open spec fn qualifier_parsed(s: Seq<char>, pos: int) -> Option<(SelTypeView, int)>
    decreases s.len() - pos, 1int,
    when 0 <= pos <= s.len()
{
    if at(s, pos, '.') {
        match symbol_end(s, pos + 1) {
            Some(end) => Some((SelTypeView::Class(s.subrange(pos + 1, end)), end)),
            None => None,
        }
    } else if at(s, pos, '#') {
        match symbol_end(s, pos + 1) {
            Some(end) => Some((SelTypeView::Id(s.subrange(pos + 1, end)), end)),
            None => None,
        }
    } else {
        match pseudo_parsed(s, pos) {
            Some((pseudo, end)) => Some((SelTypeView::Pseudo(pseudo), end)),
            None => match attr_parsed(s, pos) {
                Some((attr, end)) => Some((SelTypeView::Attr(attr), end)),
                None => None,
            },
        }
    }
}

/// The qualifiers that follow one another from `pos` on, after those of
/// `found`, and their end.
pub open spec fn qualifiers_parsed(s: Seq<char>, pos: int, found: Seq<SelTypeView>) -> (
    Seq<SelTypeView>,
    int,
)
    decreases s.len() - pos, 2int,
    when 0 <= pos <= s.len()
{
    match qualifier_parsed(s, pos) {
        Some((q, end)) => if pos < end <= s.len() {
            qualifiers_parsed(s, end, found.push(q))
        } else {
            (found, pos)
        },
        None => (found, pos),
    }
}

/// The compound selector at `pos` and its end: a symbol for the tag, if there
/// is one, and the qualifiers after it. A tag or a qualifier has to be there.
pub open spec fn term_parsed(s: Seq<char>, pos: int) -> Option<(SelectorTermView, int)>
    decreases s.len() - pos, 3int,
    when 0 <= pos <= s.len()
{
    let (tag, from) = match symbol_end(s, pos) {
        Some(end) => (Some(s.subrange(pos, end)), end),
        None => (None, pos),
    };
    proof {
        lemma_symbol_end(s, pos);
    }
    let (qualifiers, end) = qualifiers_parsed(s, from, seq![]);
    if tag is None && qualifiers.len() == 0 {
        None
    } else {
        Some((term_of(tag, qualifiers), end))
    }
}

/// The term at `pos` that `&` begins, and its end: `&` and the qualifiers
/// after it.
pub open spec fn self_term_parsed(s: Seq<char>, pos: int) -> Option<(SelectorTermView, int)> {
    if at(s, pos, '&') {
        let (qualifiers, end) = qualifiers_parsed(s, pos + 1, seq![]);
        Some((term_of(None, qualifiers), end))
    } else {
        None
    }
}


/// Whether the term says nothing: it has no tag, no id, no class, no
/// attribute matcher and no pseudo-selector.
pub open spec fn is_empty_term(term: SelectorTermView) -> bool {
    term.tag is None && term.id is None && term.class.len() == 0 && term.attribute.len() == 0
        && term.pseudo.len() == 0
}

/// The term of a tag and qualifiers has that tag, and says something as soon
/// as there is a qualifier.
pub proof fn lemma_term_of(tag: Option<Seq<char>>, qualifiers: Seq<SelTypeView>)
    ensures
        term_of(tag, qualifiers).tag == tag,
        qualifiers.len() > 0 ==> !is_empty_term(term_of(tag, qualifiers)),
    decreases qualifiers.len(),
{
    if qualifiers.len() > 0 {
        lemma_term_of(tag, qualifiers.drop_last());
    }
}

/// A compound selector that was read is never empty, and a term that `&`
/// begins has no tag.
pub proof fn lemma_parsed_terms(s: Seq<char>, pos: int)
    requires
        0 <= pos <= s.len(),
    ensures
        term_parsed(s, pos) matches Some((term, _)) ==> !is_empty_term(term),
        self_term_parsed(s, pos) matches Some((term, _)) ==> term.tag is None,
{
    if let Some(end) = symbol_end(s, pos) {
        lemma_symbol_end(s, pos);
        lemma_term_of(Some(s.subrange(pos, end)), qualifiers_parsed(s, end, seq![]).0);
    } else {
        lemma_term_of(None, qualifiers_parsed(s, pos, seq![]).0);
    }
    if at(s, pos, '&') {
        lemma_term_of(None, qualifiers_parsed(s, pos + 1, seq![]).0);
    }
}

// ---------------------------------------------------------------------------
// Copies and comparison
// ---------------------------------------------------------------------------
/// A copy of the strings of `src`.
pub fn clone_strings(src: &Vec<String>) -> (out: Vec<String>)
    ensures
        out.deep_view() == src.deep_view(),
{
    let mut out: Vec<String> = Vec::new();
    let mut i: usize = 0;
    while i < src.len()
        invariant
            i <= src.len(),
            out.len() == i,
            forall|k: int| 0 <= k < i ==> out[k]@ == src[k]@,
        decreases src.len() - i,
    {
        out.push(src[i].clone());
        i += 1;
    }
    assert(out.deep_view() =~= src.deep_view());
    out
}

/// A copy of the matchers of `src`.
pub fn clone_attrs(src: &Vec<SelectorAttr>) -> (out: Vec<SelectorAttr>)
    ensures
        out.deep_view() == src.deep_view(),
{
    let mut out: Vec<SelectorAttr> = Vec::new();
    let mut i: usize = 0;
    while i < src.len()
        invariant
            i <= src.len(),
            out.len() == i,
            forall|k: int| 0 <= k < i ==> out[k]@ == src[k]@,
        decreases src.len() - i,
    {
        out.push(src[i].clone());
        i += 1;
    }
    assert(out.deep_view() =~= src.deep_view());
    out
}

/// A copy of an optional string.
pub fn clone_opt(src: &Option<String>) -> (out: Option<String>)
    ensures
        out.deep_view() == src.deep_view(),
{
    match src {
        Some(s) => Some(s.clone()),
        None => None,
    }
}

/// Whether the two optional strings hold the same.
pub fn same_opt(a: &Option<String>, b: &Option<String>) -> (r: bool)
    ensures
        r == (a.deep_view() == b.deep_view()),
{
    match (a, b) {
        (Some(x), Some(y)) => *x == *y,
        (None, None) => true,
        _ => false,
    }
}

/// Whether the two lists hold the same strings.
pub fn same_strings(a: &Vec<String>, b: &Vec<String>) -> (r: bool)
    ensures
        r == (a.deep_view() == b.deep_view()),
{
    if a.len() != b.len() {
        assert(a.deep_view().len() != b.deep_view().len());
        return false;
    }
    let mut i: usize = 0;
    while i < a.len()
        invariant
            i <= a.len(),
            a.len() == b.len(),
            forall|k: int| 0 <= k < i ==> a[k]@ == b[k]@,
        decreases a.len() - i,
    {
        if a[i] != b[i] {
            assert(a.deep_view()[i as int] != b.deep_view()[i as int]);
            return false;
        }
        i += 1;
    }
    assert(a.deep_view() =~= b.deep_view());
    true
}

/// Whether the two lists hold the same matchers.
pub fn same_attrs(a: &Vec<SelectorAttr>, b: &Vec<SelectorAttr>) -> (r: bool)
    ensures
        r == (a.deep_view() == b.deep_view()),
{
    if a.len() != b.len() {
        assert(a.deep_view().len() != b.deep_view().len());
        return false;
    }
    let mut i: usize = 0;
    while i < a.len()
        invariant
            i <= a.len(),
            a.len() == b.len(),
            forall|k: int| 0 <= k < i ==> a[k]@ == b[k]@,
        decreases a.len() - i,
    {
        if !a[i].same(&b[i]) {
            assert(a.deep_view()[i as int] != b.deep_view()[i as int]);
            return false;
        }
        i += 1;
    }
    assert(a.deep_view() =~= b.deep_view());
    true
}

impl Clone for Pseudo {
    fn clone(&self) -> (r: Self)
        ensures
            r@ == self@,
        decreases self,
    {
        Pseudo {
            property: self.property.clone(),
            value: match &self.value {
                Some(term) => Some(term.clone()),
                None => None,
            },
            mode: self.mode,
        }
    }
}

impl Clone for SelectorTerm {
    fn clone(&self) -> (r: Self)
        ensures
            r@ == self@,
        decreases self,
    {
        let mut pseudo: Vec<Pseudo> = Vec::new();
        let mut i: usize = 0;
        while i < self.pseudo.len()
            invariant
                i <= self.pseudo.len(),
                pseudo.len() == i,
                forall|k: int| 0 <= k < i ==> pseudo[k]@ == self.pseudo[k]@,
            decreases self.pseudo.len() - i,
        {
            pseudo.push(self.pseudo[i].clone());
            i += 1;
        }
        let r = SelectorTerm {
            id: clone_opt(&self.id),
            class: clone_strings(&self.class),
            tag: clone_opt(&self.tag),
            attribute: clone_attrs(&self.attribute),
            pseudo,
        };
        assert(r@.pseudo =~= self@.pseudo);
        r
    }
}

impl Clone for SelType {
    fn clone(&self) -> (r: Self)
        ensures
            r@ == self@,
    {
        match self {
            SelType::Class(name) => SelType::Class(name.clone()),
            SelType::Id(name) => SelType::Id(name.clone()),
            SelType::Pseudo(pseudo) => SelType::Pseudo(pseudo.clone()),
            SelType::Attr(attr) => SelType::Attr(attr.clone()),
        }
    }
}

impl Pseudo {
    /// Whether the two pseudo-selectors stand for the same.
    pub fn same(&self, other: &Pseudo) -> (r: bool)
        ensures
            r == (self@ == other@),
        decreases self,
    {
        self.property == other.property && self.mode == other.mode && match (
            &self.value,
            &other.value,
        ) {
            (Some(a), Some(b)) => a.same(b),
            (None, None) => true,
            _ => false,
        }
    }
}

impl SelectorTerm {
    /// Whether the two terms stand for the same.
    pub fn same(&self, other: &SelectorTerm) -> (r: bool)
        ensures
            r == (self@ == other@),
        decreases self,
    {
        if !(same_opt(&self.id, &other.id) && same_strings(&self.class, &other.class) && same_opt(
            &self.tag,
            &other.tag,
        ) && same_attrs(&self.attribute, &other.attribute)) {
            return false;
        }
        if self.pseudo.len() != other.pseudo.len() {
            assert(self@.pseudo.len() != other@.pseudo.len());
            return false;
        }
        let mut i: usize = 0;
        while i < self.pseudo.len()
            invariant
                i <= self.pseudo.len(),
                self.pseudo.len() == other.pseudo.len(),
                forall|k: int| 0 <= k < i ==> self.pseudo[k]@ == other.pseudo[k]@,
            decreases self.pseudo.len() - i,
        {
            if !self.pseudo[i].same(&other.pseudo[i]) {
                assert(self@.pseudo[i as int] != other@.pseudo[i as int]);
                return false;
            }
            i += 1;
        }
        assert(self@.pseudo =~= other@.pseudo);
        true
    }
}


// ---------------------------------------------------------------------------
// Parsing
// ---------------------------------------------------------------------------
impl Pseudo {
    /// Reads the pseudo-selector that starts at `pos`.
    pub fn parse_at(input: &Vec<char>, pos: usize) -> (r: Option<(Pseudo, usize)>)
        requires
            pos <= input.len(),
        ensures
            r matches Some((pseudo, end)) ==> pseudo_parsed(input@, pos as int) == Some(
                (pseudo@, end as int),
            ) && pos < end <= input.len(),
            r is None ==> pseudo_parsed(input@, pos as int) is None,
        decreases input.len() - pos, 0int,
    {
        if !is_at(input, pos, ':') {
            return None;
        }
        let (mode, name) = if is_at(input, pos + 1, ':') {
            (PseudoMode::PseudoElement, pos + 2)
        } else {
            (PseudoMode::PseudoClass, pos + 1)
        };
        let end = match symbol_at(input, name) {
            Some(end) => end,
            None => {
                return None;
            },
        };
        let property = substring(input, name, end);
        if is_at(input, end, '(') {
            match SelectorTerm::parse_at(input, end + 1) {
                Some((term, close)) => {
                    if is_at(input, close, ')') {
                        return Some((Pseudo { property, value: Some(term), mode }, close + 1));
                    }
                },
                None => {},
            }
        }
        Some((Pseudo { property, value: None, mode }, end))
    }

    /// Reads a pseudo-selector from the start of `input`; gives the rest of
    /// the text and the pseudo-selector.
    pub fn parse(input: &str) -> (r: Result<(String, Pseudo), ParseError>)
        ensures
            match r {
                Ok((rest, pseudo)) => pseudo_parsed(input@, 0) matches Some((view, end)) && pseudo@
                    == view && rest@ == input@.subrange(end, input@.len() as int),
                Err(e) => pseudo_parsed(input@, 0) is None && e.kind == ErrorKind::Mismatch
                    && e.detail is None,
            },
    {
        let chars = chars_of(input);
        match Pseudo::parse_at(&chars, 0) {
            Some((pseudo, end)) => Ok((substring(&chars, end, chars.len()), pseudo)),
            None => Err(ParseError::mismatch()),
        }
    }
}

/// Reads the qualifier that starts at `pos`.
fn qualifier_at(input: &Vec<char>, pos: usize) -> (r: Option<(SelType, usize)>)
    requires
        pos <= input.len(),
    ensures
        r matches Some((q, end)) ==> qualifier_parsed(input@, pos as int) == Some(
            (q@, end as int),
        ) && pos < end <= input.len(),
        r is None ==> qualifier_parsed(input@, pos as int) is None,
    decreases input.len() - pos, 1int,
{
    if is_at(input, pos, '.') {
        match symbol_at(input, pos + 1) {
            Some(end) => Some((SelType::Class(substring(input, pos + 1, end)), end)),
            None => None,
        }
    } else if is_at(input, pos, '#') {
        match symbol_at(input, pos + 1) {
            Some(end) => Some((SelType::Id(substring(input, pos + 1, end)), end)),
            None => None,
        }
    } else {
        match Pseudo::parse_at(input, pos) {
            Some((pseudo, end)) => Some((SelType::Pseudo(pseudo), end)),
            None => match SelectorAttr::parse_at(input, pos) {
                Some((attr, end)) => Some((SelType::Attr(attr), end)),
                None => None,
            },
        }
    }
}

/// Reads the qualifiers that follow one another from `pos` on.
fn qualifiers_at(input: &Vec<char>, pos: usize) -> (r: (Vec<SelType>, usize))
    requires
        pos <= input.len(),
    ensures
        qualifiers_parsed(input@, pos as int, seq![]) == (r.0.deep_view(), r.1 as int),
        pos <= r.1 <= input.len(),
        r.0.len() > 0 ==> pos < r.1,
    decreases input.len() - pos, 2int,
{
    let mut found: Vec<SelType> = Vec::new();
    let mut i: usize = pos;
    assert(found.deep_view() =~= seq![]);
    loop
        invariant
            pos <= i <= input.len(),
            found.len() > 0 ==> pos < i,
            qualifiers_parsed(input@, pos as int, seq![]) == qualifiers_parsed(
                input@,
                i as int,
                found.deep_view(),
            ),
        ensures
            pos <= i <= input.len(),
            found.len() > 0 ==> pos < i,
            qualifiers_parsed(input@, pos as int, seq![]) == (found.deep_view(), i as int),
        decreases input.len() - i,
    {
        match qualifier_at(input, i) {
            Some((q, end)) => {
                let ghost before = found.deep_view();
                found.push(q);
                assert(found.deep_view() =~= before.push(q@));
                i = end;
            },
            None => {
                break ;
            },
        }
    }
    (found, i)
}

impl SelectorTerm {
    /// The term of the given tag and qualifiers. Classes, attribute matchers
    /// and pseudo-selectors keep their order; of several ids the last stays.
    pub fn new(tag: Option<String>, qualifiers: &Vec<SelType>) -> (term: SelectorTerm)
        ensures
            term@ == term_of(tag.deep_view(), qualifiers.deep_view()),
    {
        let mut term = SelectorTerm {
            id: None,
            class: Vec::new(),
            tag,
            attribute: Vec::new(),
            pseudo: Vec::new(),
        };
        assert(term@ =~= bare_term(tag.deep_view())) by {
            assert(term@.class =~= seq![]);
            assert(term@.attribute =~= seq![]);
            assert(term@.pseudo =~= seq![]);
        }
        let mut i: usize = 0;
        assert(qualifiers.deep_view().take(0) =~= seq![]);
        while i < qualifiers.len()
            invariant
                i <= qualifiers.len(),
                term@ == term_of(tag.deep_view(), qualifiers.deep_view().take(i as int)),
            decreases qualifiers.len() - i,
        {
            let ghost before = term@;
            let ghost step = qualifiers.deep_view().take(i + 1);
            assert(step.drop_last() =~= qualifiers.deep_view().take(i as int));
            assert(step.last() == qualifiers[i as int]@);
            match &qualifiers[i] {
                SelType::Class(name) => {
                    term.class.push(name.clone());
                    assert(term@.class =~= before.class.push(name@));
                    assert(term@.pseudo =~= before.pseudo);
                },
                SelType::Id(name) => {
                    term.id = Some(name.clone());
                    assert(term@.pseudo =~= before.pseudo);
                },
                SelType::Pseudo(pseudo) => {
                    term.pseudo.push(pseudo.clone());
                    assert(term@.pseudo =~= before.pseudo.push(pseudo@));
                },
                SelType::Attr(attr) => {
                    term.attribute.push(attr.clone());
                    assert(term@.attribute =~= before.attribute.push(attr@));
                    assert(term@.pseudo =~= before.pseudo);
                },
            }
            assert(term@ == with_qualifier(before, qualifiers[i as int]@));
            i += 1;
        }
        assert(qualifiers.deep_view().take(i as int) =~= qualifiers.deep_view());
        term
    }

    /// Reads the compound selector that starts at `pos`.
    pub fn parse_at(input: &Vec<char>, pos: usize) -> (r: Option<(SelectorTerm, usize)>)
        requires
            pos <= input.len(),
        ensures
            r matches Some((term, end)) ==> term_parsed(input@, pos as int) == Some(
                (term@, end as int),
            ) && pos < end <= input.len(),
            r is None ==> term_parsed(input@, pos as int) is None,
        decreases input.len() - pos, 3int,
    {
        let (tag, from) = match symbol_at(input, pos) {
            Some(end) => (Some(substring(input, pos, end)), end),
            None => (None, pos),
        };
        let (qualifiers, end) = qualifiers_at(input, from);
        if tag.is_none() && qualifiers.len() == 0 {
            None
        } else {
            Some((SelectorTerm::new(tag, &qualifiers), end))
        }
    }

    /// Reads the term that starts at `pos` with `&`.
    pub fn parse_self_at(input: &Vec<char>, pos: usize) -> (r: Option<(SelectorTerm, usize)>)
        requires
            pos <= input.len(),
        ensures
            r matches Some((term, end)) ==> self_term_parsed(input@, pos as int) == Some(
                (term@, end as int),
            ) && pos < end <= input.len(),
            r is None ==> self_term_parsed(input@, pos as int) is None,
    {
        if is_at(input, pos, '&') {
            let (qualifiers, end) = qualifiers_at(input, pos + 1);
            Some((SelectorTerm::new(None, &qualifiers), end))
        } else {
            None
        }
    }

    /// Reads a compound selector from the start of `input`; gives the rest of
    /// the text and the selector.
    pub fn parse(input: &str) -> (r: Result<(String, SelectorTerm), ParseError>)
        ensures
            match r {
                Ok((rest, term)) => term_parsed(input@, 0) matches Some((view, end)) && term@
                    == view && rest@ == input@.subrange(end, input@.len() as int),
                Err(e) => term_parsed(input@, 0) is None && e.kind == ErrorKind::Mismatch
                    && e.detail is None,
            },
    {
        let chars = chars_of(input);
        match SelectorTerm::parse_at(&chars, 0) {
            Some((term, end)) => Ok((substring(&chars, end, chars.len()), term)),
            None => Err(ParseError::mismatch()),
        }
    }
}


// ---------------------------------------------------------------------------
// Joining
// ---------------------------------------------------------------------------
/// The term `parent` with the qualifiers of `child` after its own. The tag is
/// that of `parent`; the id is that of `child` where it has one, else that of
/// `parent`.
pub open spec fn term_join(parent: SelectorTermView, child: SelectorTermView) -> SelectorTermView {
    SelectorTermView {
        id: if child.id is Some {
            child.id
        } else {
            parent.id
        },
        class: parent.class + child.class,
        tag: parent.tag,
        attribute: parent.attribute + child.attribute,
        pseudo: parent.pseudo + child.pseudo,
    }
}

/// Appends copies of the pseudo-selectors of `src` to `dst`.
fn extend_pseudos(dst: &mut Vec<Pseudo>, src: &Vec<Pseudo>)
    ensures
        final(dst).deep_view() == old(dst).deep_view() + src.deep_view(),
{
    let mut i: usize = 0;
    while i < src.len()
        invariant
            i <= src.len(),
            dst.len() == old(dst).len() + i,
            forall|k: int| 0 <= k < old(dst).len() ==> dst[k]@ == old(dst)[k]@,
            forall|k: int| 0 <= k < i ==> dst[old(dst).len() + k]@ == src[k]@,
        decreases src.len() - i,
    {
        dst.push(src[i].clone());
        i += 1;
    }
    assert(dst.deep_view() =~= old(dst).deep_view() + src.deep_view());
}

/// Appends copies of the strings of `src` to `dst`.
pub fn extend_strings(dst: &mut Vec<String>, src: &Vec<String>)
    ensures
        final(dst).deep_view() == old(dst).deep_view() + src.deep_view(),
{
    let mut i: usize = 0;
    while i < src.len()
        invariant
            i <= src.len(),
            dst.len() == old(dst).len() + i,
            forall|k: int| 0 <= k < old(dst).len() ==> dst[k]@ == old(dst)[k]@,
            forall|k: int| 0 <= k < i ==> dst[old(dst).len() + k]@ == src[k]@,
        decreases src.len() - i,
    {
        dst.push(src[i].clone());
        i += 1;
    }
    assert(dst.deep_view() =~= old(dst).deep_view() + src.deep_view());
}

/// Appends copies of the matchers of `src` to `dst`.
fn extend_attrs(dst: &mut Vec<SelectorAttr>, src: &Vec<SelectorAttr>)
    ensures
        final(dst).deep_view() == old(dst).deep_view() + src.deep_view(),
{
    let mut i: usize = 0;
    while i < src.len()
        invariant
            i <= src.len(),
            dst.len() == old(dst).len() + i,
            forall|k: int| 0 <= k < old(dst).len() ==> dst[k]@ == old(dst)[k]@,
            forall|k: int| 0 <= k < i ==> dst[old(dst).len() + k]@ == src[k]@,
        decreases src.len() - i,
    {
        dst.push(src[i].clone());
        i += 1;
    }
    assert(dst.deep_view() =~= old(dst).deep_view() + src.deep_view());
}

impl SelectorTerm {
    /// Joins the term that `&` begins, `other`, to this one.
    pub fn join(&self, other: &SelectorTerm) -> (joined: SelectorTerm)
        ensures
            joined@ == term_join(self@, other@),
    {
        let mut class = clone_strings(&self.class);
        let mut attribute = clone_attrs(&self.attribute);
        let mut pseudo: Vec<Pseudo> = Vec::new();
        extend_pseudos(&mut pseudo, &self.pseudo);
        let id = if other.id.is_some() {
            clone_opt(&other.id)
        } else {
            clone_opt(&self.id)
        };
        extend_strings(&mut class, &other.class);
        extend_attrs(&mut attribute, &other.attribute);
        extend_pseudos(&mut pseudo, &other.pseudo);
        let joined = SelectorTerm { id, class, tag: clone_opt(&self.tag), attribute, pseudo };
        proof {
            lemma_term_view_pseudo(*self);
            lemma_term_view_pseudo(*other);
            lemma_term_view_pseudo(joined);
            assert(joined@.pseudo =~= self@.pseudo + other@.pseudo);
        }
        joined
    }
}

// ---------------------------------------------------------------------------
// Rendering
// ---------------------------------------------------------------------------
/// The first `n` classes, each after a `.`.
pub open spec fn classes_text(classes: Seq<Seq<char>>, n: int) -> Seq<char>
    decreases n,
{
    if n <= 0 {
        seq![]
    } else {
        classes_text(classes, n - 1) + seq!['.'] + classes[n - 1]
    }
}

/// The first `n` attribute matchers, each in its own square brackets.
pub open spec fn attrs_text(attrs: Seq<SelectorAttrView>, n: int) -> Seq<char>
    decreases n,
{
    if n <= 0 {
        seq![]
    } else {
        attrs_text(attrs, n - 1) + attr_text(attrs[n - 1])
    }
}

/// The first `n` pseudo-selectors, one after the other.
pub open spec fn pseudos_text(pseudos: Seq<PseudoView>, n: int) -> Seq<char>
    decreases pseudos, n,
{
    if 0 < n <= pseudos.len() {
        pseudos_text(pseudos, n - 1) + pseudo_text(pseudos[n - 1])
    } else {
        seq![]
    }
}

/// The text of a pseudo-selector: its colons, its name and, in round
/// brackets, its argument where it has one.
pub open spec fn pseudo_text(pseudo: PseudoView) -> Seq<char>
    decreases pseudo, 0int,
{
    let colons = match pseudo.mode {
        PseudoMode::PseudoClass => seq![':'],
        PseudoMode::PseudoElement => seq![':', ':'],
    };
    let argument = match pseudo.value {
        Some(term) => seq!['('] + term_text(term) + seq![')'],
        None => seq![],
    };
    colons + pseudo.property + argument
}

/// The text of a compound selector: the tag, `#` and the id, the classes, the
/// attribute matchers, the pseudo-selectors.
pub open spec fn term_text(term: SelectorTermView) -> Seq<char>
    decreases term, 0int,
{
    let tag = match term.tag {
        Some(tag) => tag,
        None => seq![],
    };
    let id = match term.id {
        Some(id) => seq!['#'] + id,
        None => seq![],
    };
    tag + id + classes_text(term.class, term.class.len() as int) + attrs_text(
        term.attribute,
        term.attribute.len() as int,
    ) + pseudos_text(
        term.pseudo,
        term.pseudo.len() as int,
    )
}

impl Pseudo {
    /// Appends the text of the pseudo-selector to `out`.
    pub fn render_into(&self, out: &mut String)
        ensures
            final(out)@ == old(out)@ + pseudo_text(self@),
        decreases self,
    {
        match self.mode {
            PseudoMode::PseudoClass => {
                out.push(':');
            },
            PseudoMode::PseudoElement => {
                out.push(':');
                out.push(':');
            },
        }
        out.append(self.property.as_str());
        match &self.value {
            Some(term) => {
                out.push('(');
                term.render_into(out);
                out.push(')');
            },
            None => {},
        }
        assert(out@ =~= old(out)@ + pseudo_text(self@));
    }
}

/// Appends the classes to `out`, each after a `.`.
fn render_classes(classes: &Vec<String>, out: &mut String)
    ensures
        final(out)@ == old(out)@ + classes_text(classes.deep_view(), classes.len() as int),
{
    let mut i: usize = 0;
    assert(out@ =~= old(out)@ + classes_text(classes.deep_view(), 0));
    while i < classes.len()
        invariant
            i <= classes.len(),
            out@ == old(out)@ + classes_text(classes.deep_view(), i as int),
        decreases classes.len() - i,
    {
        out.push('.');
        out.append(classes[i].as_str());
        assert(classes.deep_view()[i as int] == classes[i as int]@);
        assert(out@ =~= old(out)@ + classes_text(classes.deep_view(), i + 1));
        i += 1;
    }
}

/// Appends the attribute matchers to `out`, each in its own square brackets.
fn render_attrs(attrs: &Vec<SelectorAttr>, out: &mut String)
    ensures
        final(out)@ == old(out)@ + attrs_text(attrs.deep_view(), attrs.len() as int),
{
    let mut j: usize = 0;
    assert(out@ =~= old(out)@ + attrs_text(attrs.deep_view(), 0));
    while j < attrs.len()
        invariant
            j <= attrs.len(),
            out@ == old(out)@ + attrs_text(attrs.deep_view(), j as int),
        decreases attrs.len() - j,
    {
        attrs[j].render(out);
        assert(attrs.deep_view()[j as int] == attrs[j as int]@);
        assert(out@ =~= old(out)@ + attrs_text(attrs.deep_view(), j + 1));
        j += 1;
    }
}

impl SelectorTerm {
    /// Appends the text of the term to `out`.
    pub fn render_into(&self, out: &mut String)
        ensures
            final(out)@ == old(out)@ + term_text(self@),
        decreases self,
    {
        let ghost mut done: Seq<char> = seq![];
        if let Some(tag) = &self.tag {
            out.append(tag.as_str());
            proof {
                done = tag@;
            }
        }
        if let Some(id) = &self.id {
            out.push('#');
            out.append(id.as_str());
            proof {
                done = done + (seq!['#'] + id@);
            }
        }
        render_classes(&self.class, out);
        render_attrs(&self.attribute, out);
        let ghost head = done + classes_text(self@.class, self@.class.len() as int) + attrs_text(
            self@.attribute,
            self@.attribute.len() as int,
        );
        assert(out@ =~= old(out)@ + head);
        let mut k: usize = 0;
        assert(out@ =~= old(out)@ + head + pseudos_text(self@.pseudo, 0));
        while k < self.pseudo.len()
            invariant
                k <= self.pseudo.len(),
                out@ == old(out)@ + head + pseudos_text(self@.pseudo, k as int),
            decreases self.pseudo.len() - k,
        {
            self.pseudo[k].render_into(out);
            assert(self@.pseudo[k as int] == self.pseudo[k as int]@);
            assert(out@ =~= old(out)@ + head + pseudos_text(self@.pseudo, k + 1));
            k += 1;
        }
        assert(out@ =~= old(out)@ + term_text(self@));
    }
}

impl RenderCss for Pseudo {
    open spec fn css(&self) -> Seq<char> {
        pseudo_text(self@)
    }

    fn render(&self, out: &mut String) {
        self.render_into(out);
    }
}

impl RenderCss for SelectorTerm {
    open spec fn css(&self) -> Seq<char> {
        term_text(self@)
    }

    fn render(&self, out: &mut String) {
        self.render_into(out);
    }
}

} // verus!
