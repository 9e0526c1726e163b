//! The subprogram classifier: a registry of rules, one per known program,
//! each of which reads a subprogram label out of a window title.

use crate::scan::{
    ends_with, find_from, same_text, slice, split, split_from, split_text, starts_with, trim,
    trim_text,
};
use crate::text::{chars_of, lower, spec_lower, text_of, text_view};
use vstd::prelude::*;

verus! {

/// How a site signature is held against a browser title.
#[derive(Clone, Copy, Debug)]
pub enum TitleTest {
    /// The title is the literal.
    Equals,
    /// The title begins with the literal.
    StartsWith,
    /// The title ends with the literal.
    EndsWith,
}

/// One site signature: a test on the browser title, and the label it gives.
pub struct SiteRule {
    pub test: TitleTest,
    pub literal: String,
    pub label: String,
}

/// How a program's window title is read.
pub enum TitleParser {
    /// A browser: the title ends with `suffix`; what stands before it,
    /// trimmed, is held against `sites` in order.
    Browser { suffix: String, sites: Vec<SiteRule> },
    /// An editor: the title is cut at `separator`, and where that gives
    /// exactly three parts the middle one is the label.
    Editor { separator: String },
}

/// One entry of the registry: a process identifier in lower case, and the
/// parser for the titles of that program's windows.
pub struct ProgramRule {
    pub process: String,
    pub parser: TitleParser,
}

/// The registry of program rules. An earlier rule takes precedence over a
/// later one for the same process.
pub struct Classifier {
    pub rules: Vec<ProgramRule>,
}

/// What a `SiteRule` says.
pub struct SiteSignature {
    pub test: TitleTest,
    pub literal: Seq<char>,
    pub label: Seq<char>,
}

/// What a `TitleParser` says.
pub enum ParserModel {
    Browser { suffix: Seq<char>, sites: Seq<SiteSignature> },
    Editor { separator: Seq<char> },
}

/// What a `ProgramRule` says.
pub struct RuleModel {
    pub process: Seq<char>,
    pub parser: ParserModel,
}

impl View for SiteRule {
    type V = SiteSignature;

    open spec fn view(&self) -> SiteSignature {
        SiteSignature { test: self.test, literal: self.literal@, label: self.label@ }
    }
}

/// What a list of site rules says.
pub open spec fn site_models(sites: Seq<SiteRule>) -> Seq<SiteSignature> {
    Seq::new(sites.len(), |i: int| sites[i]@)
}

impl View for TitleParser {
    type V = ParserModel;

    open spec fn view(&self) -> ParserModel {
        match self {
            TitleParser::Browser { suffix, sites } => ParserModel::Browser {
                suffix: suffix@,
                sites: site_models(sites@),
            },
            TitleParser::Editor { separator } => ParserModel::Editor { separator: separator@ },
        }
    }
}

impl View for ProgramRule {
    type V = RuleModel;

    open spec fn view(&self) -> RuleModel {
        RuleModel { process: self.process@, parser: self.parser@ }
    }
}

impl View for Classifier {
    type V = Seq<RuleModel>;

    open spec fn view(&self) -> Seq<RuleModel> {
        Seq::new(self.rules@.len(), |i: int| self.rules@[i]@)
    }
}

/// A label that is not empty; an empty one counts as absent.
pub open spec fn present(label: Seq<char>) -> Option<Seq<char>> {
    if label.len() == 0 {
        None
    } else {
        Some(label)
    }
}

/// Whether the signature `site` fits the browser title `title`.
pub open spec fn site_applies(site: SiteSignature, title: Seq<char>) -> bool {
    match site.test {
        TitleTest::Equals => title == site.literal,
        TitleTest::StartsWith => site.literal.is_prefix_of(title),
        TitleTest::EndsWith => site.literal.is_suffix_of(title),
    }
}

/// The label of the first of `sites` that fits `title`.
pub open spec fn site_label(sites: Seq<SiteSignature>, title: Seq<char>) -> Option<Seq<char>>
    decreases sites.len(),
{
    if sites.len() == 0 {
        None
    } else if site_applies(sites[0], title) {
        present(sites[0].label)
    } else {
        site_label(sites.drop_first(), title)
    }
}

/// What stands before `suffix` in a title that ends with it, trimmed.
pub open spec fn browser_title(title: Seq<char>, suffix: Seq<char>) -> Option<Seq<char>> {
    if suffix.is_suffix_of(title) {
        Some(trim(title.take(title.len() - suffix.len())))
    } else {
        None
    }
}

/// The label that `parser` reads out of `title`.
pub open spec fn parsed_label(parser: ParserModel, title: Seq<char>) -> Option<Seq<char>> {
    match parser {
        ParserModel::Browser { suffix, sites } => match browser_title(title, suffix) {
            Some(inner) => site_label(sites, inner),
            None => None,
        },
        ParserModel::Editor { separator } => {
            let parts = split(title, separator);
            if parts.len() == 3 {
                present(parts[1])
            } else {
                None
            }
        },
    }
}

/// The label that the first of `rules` for the process `lowered` reads out of
/// `title`.
pub open spec fn rule_label(rules: Seq<RuleModel>, lowered: Seq<char>, title: Seq<char>) -> Option<
    Seq<char>,
>
    decreases rules.len(),
{
    if rules.len() == 0 {
        None
    } else if rules[0].process == lowered {
        parsed_label(rules[0].parser, title)
    } else {
        rule_label(rules.drop_first(), lowered, title)
    }
}

/// The subprogram of a window of the process `program` with the title
/// `title`, under `rules`. The process name is matched without regard to
/// case.
pub open spec fn spec_classify(rules: Seq<RuleModel>, program: Seq<char>, title: Seq<char>)
    -> Option<Seq<char>> {
    rule_label(rules, spec_lower(program), title)
}

/// The sites that the standard registry knows in a browser title.
pub open spec fn standard_sites() -> Seq<SiteSignature> {
    seq![
        SiteSignature { test: TitleTest::Equals, literal: "generals.io"@, label: "generals.io"@ },
        SiteSignature {
            test: TitleTest::StartsWith,
            literal: "generals.io |"@,
            label: "generals.io"@,
        },
        SiteSignature { test: TitleTest::EndsWith, literal: "YouTube"@, label: "youtube.com"@ },
        SiteSignature {
            test: TitleTest::EndsWith,
            literal: "| Musescore.com"@,
            label: "musescore.com"@,
        },
        SiteSignature {
            test: TitleTest::StartsWith,
            literal: "Musescore.com |"@,
            label: "musescore.com"@,
        },
        SiteSignature {
            test: TitleTest::EndsWith,
            literal: "- Google Docs"@,
            label: "docs.google.com"@,
        },
        SiteSignature { test: TitleTest::Equals, literal: "WhatsApp"@, label: "whatsapp.com"@ },
        SiteSignature { test: TitleTest::EndsWith, literal: "| Quizlet"@, label: "quizlet.com"@ },
    ]
}

/// The standard registry: one browser and one editor.
pub open spec fn standard_rules() -> Seq<RuleModel> {
    seq![
        RuleModel {
            process: "firefox"@,
            parser: ParserModel::Browser {
                suffix: "\u{2014} Mozilla Firefox"@,
                sites: standard_sites(),
            },
        },
        RuleModel { process: "code"@, parser: ParserModel::Editor { separator: " - "@ } },
    ]
}

/// The subprogram of a window under the standard registry.
pub open spec fn spec_predict_subprogram(program: Seq<char>, title: Seq<char>) -> Option<
    Seq<char>,
> {
    spec_classify(standard_rules(), program, title)
}

/// A label that the rules give is not empty.
pub proof fn lemma_label_not_empty(rules: Seq<RuleModel>, lowered: Seq<char>, title: Seq<char>)
    ensures
        rule_label(rules, lowered, title) matches Some(label) ==> label.len() > 0,
    decreases rules.len(),
{
    if rules.len() > 0 {
        if rules[0].process == lowered {
            match rules[0].parser {
                ParserModel::Browser { suffix, sites } => {
                    if let Some(inner) = browser_title(title, suffix) {
                        lemma_site_label_not_empty(sites, inner);
                    }
                },
                ParserModel::Editor { separator } => {},
            }
        } else {
            lemma_label_not_empty(rules.drop_first(), lowered, title);
        }
    }
}

/// A label that the site signatures give is not empty.
pub proof fn lemma_site_label_not_empty(sites: Seq<SiteSignature>, title: Seq<char>)
    ensures
        site_label(sites, title) matches Some(label) ==> label.len() > 0,
    decreases sites.len(),
{
    if sites.len() > 0 && !site_applies(sites[0], title) {
        lemma_site_label_not_empty(sites.drop_first(), title);
    }
}

/// What the standard registry does by process: the titles of the browser
/// are read as browser titles, those of the editor as editor titles, and a
/// window of any other process has no subprogram.
pub proof fn lemma_standard_registry(program: Seq<char>, title: Seq<char>)
    ensures
        spec_lower(program) == "firefox"@ ==> spec_predict_subprogram(program, title)
            == parsed_label(standard_rules()[0].parser, title),
        spec_lower(program) == "code"@ ==> spec_predict_subprogram(program, title) == parsed_label(
            standard_rules()[1].parser,
            title,
        ),
        spec_lower(program) != "firefox"@ && spec_lower(program) != "code"@
            ==> spec_predict_subprogram(program, title) is None,
{
    reveal_strlit("firefox");
    reveal_strlit("code");
    let rules = standard_rules();
    let lowered = spec_lower(program);
    assert("firefox"@ != "code"@) by {
        assert("firefox"@.len() == 7);
        assert("code"@.len() == 4);
    }
    let rest = rules.drop_first();
    assert(rest[0] == rules[1]);
    assert(rest.drop_first().len() == 0);
    assert(rule_label(rest.drop_first(), lowered, title) is None);
    assert(rule_label(rest, lowered, title) == if lowered == "code"@ {
        parsed_label(rules[1].parser, title)
    } else {
        None
    });
}

/// An editor title in which the separator occurs less than twice gives no
/// label.
pub proof fn lemma_editor_needs_two_separators(title: Seq<char>, separator: Seq<char>)
    requires
        match find_from(title, separator, 0) {
            None => true,
            Some(at) => find_from(title, separator, at + separator.len()) is None,
        },
    ensures
        parsed_label(ParserModel::Editor { separator }, title) is None,
{
    let parts = split(title, separator);
    match find_from(title, separator, 0) {
        None => {
            assert(parts.len() == 1);
        },
        Some(at) => {
            if separator.len() > 0 && 0 <= at && at + separator.len() <= title.len() {
                let rest = split_from(title, separator, at + separator.len());
                assert(rest.len() == 1);
                assert(parts.len() == 2);
            } else {
                assert(parts.len() == 1);
            }
        },
    }
}

impl SiteRule {
    /// The signature that gives `label` where `literal` passes `test`.
    pub fn new(test: TitleTest, literal: &str, label: &str) -> (rule: SiteRule)
        ensures
            rule@ == (SiteSignature { test, literal: literal@, label: label@ }),
    {
        SiteRule { test, literal: literal.to_owned(), label: label.to_owned() }
    }

    /// Whether this signature fits the browser title `title`.
    pub fn applies(&self, title: &Vec<char>) -> (b: bool)
        ensures
            b == site_applies(self@, title@),
    {
        let literal = chars_of(self.literal.as_str());
        match self.test {
            TitleTest::Equals => same_text(title, &literal),
            TitleTest::StartsWith => starts_with(title, &literal),
            TitleTest::EndsWith => ends_with(title, &literal),
        }
    }
}

/// `label` as a string, unless it is empty.
fn label_of(label: &Vec<char>) -> (r: Option<String>)
    ensures
        text_view(r) == present(label@),
{
    if label.len() == 0 {
        None
    } else {
        Some(text_of(label))
    }
}

/// The label of the first of `sites` that fits `title`.
pub fn first_site(sites: &Vec<SiteRule>, title: &Vec<char>) -> (r: Option<String>)
    ensures
        text_view(r) == site_label(site_models(sites@), title@),
{
    let ghost all = site_models(sites@);
    assert(all.skip(0) == all);
    let mut i: usize = 0;
    while i < sites.len()
        invariant
            i <= sites.len(),
            all == site_models(sites@),
            site_label(all, title@) == site_label(all.skip(i as int), title@),
        decreases sites.len() - i,
    {
        assert(all.skip(i as int)[0] == sites@[i as int]@);
        assert(all.skip(i as int).drop_first() == all.skip(i + 1));
        if sites[i].applies(title) {
            let label = chars_of(sites[i].label.as_str());
            return label_of(&label);
        }
        i += 1;
    }
    None
}

impl TitleParser {
    /// The label that this parser reads out of `title`.
    pub fn parse(&self, title: &Vec<char>) -> (r: Option<String>)
        ensures
            text_view(r) == parsed_label(self@, title@),
    {
        match self {
            TitleParser::Browser { suffix, sites } => {
                let suffix = chars_of(suffix.as_str());
                if ends_with(title, &suffix) {
                    let inner = slice(title, 0, title.len() - suffix.len());
                    let inner = trim_text(&inner);
                    first_site(sites, &inner)
                } else {
                    None
                }
            },
            TitleParser::Editor { separator } => {
                let separator = chars_of(separator.as_str());
                let parts = split_text(title, &separator);
                if parts.len() == 3 {
                    label_of(&parts[1])
                } else {
                    None
                }
            },
        }
    }
}

impl Classifier {
    /// A registry without rules: no window has a subprogram.
    pub fn new() -> (c: Classifier)
        ensures
            c@ == Seq::<RuleModel>::empty(),
    {
        Classifier { rules: Vec::new() }
    }

    /// Adds `rule` behind the rules already there, which stay as they are.
    pub fn register(&mut self, rule: ProgramRule)
        ensures
            final(self)@ == old(self)@.push(rule@),
    {
        self.rules.push(rule);
    }

    /// The standard registry.
    pub fn standard() -> (c: Classifier)
        ensures
            c@ == standard_rules(),
    {
        let mut sites: Vec<SiteRule> = Vec::new();
        sites.push(SiteRule::new(TitleTest::Equals, "generals.io", "generals.io"));
        sites.push(SiteRule::new(TitleTest::StartsWith, "generals.io |", "generals.io"));
        sites.push(SiteRule::new(TitleTest::EndsWith, "YouTube", "youtube.com"));
        sites.push(SiteRule::new(TitleTest::EndsWith, "| Musescore.com", "musescore.com"));
        sites.push(SiteRule::new(TitleTest::StartsWith, "Musescore.com |", "musescore.com"));
        sites.push(SiteRule::new(TitleTest::EndsWith, "- Google Docs", "docs.google.com"));
        sites.push(SiteRule::new(TitleTest::Equals, "WhatsApp", "whatsapp.com"));
        sites.push(SiteRule::new(TitleTest::EndsWith, "| Quizlet", "quizlet.com"));
        assert(site_models(sites@) == standard_sites());
        let mut c = Classifier::new();
        c.register(
            ProgramRule {
                process: "firefox".to_owned(),
                parser: TitleParser::Browser {
                    suffix: "\u{2014} Mozilla Firefox".to_owned(),
                    sites,
                },
            },
        );
        c.register(
            ProgramRule {
                process: "code".to_owned(),
                parser: TitleParser::Editor { separator: " - ".to_owned() },
            },
        );
        c
    }

    /// The subprogram of a window of the process `program` with the title
    /// `title`, if the registry knows one.
    pub fn classify(&self, program: &str, title: &str) -> (r: Option<String>)
        ensures
            text_view(r) == spec_classify(self@, program@, title@),
            r matches Some(label) ==> label@.len() > 0,
    {
        let lowered = lower(&chars_of(program));
        let shown = chars_of(title);
        assert(self@.skip(0) == self@);
        let mut i: usize = 0;
        while i < self.rules.len()
            invariant
                i <= self.rules.len(),
                lowered@ == spec_lower(program@),
                shown@ == title@,
                rule_label(self@, lowered@, title@) == rule_label(
                    self@.skip(i as int),
                    lowered@,
                    title@,
                ),
            decreases self.rules.len() - i,
        {
            assert(self@.skip(i as int)[0] == self.rules@[i as int]@);
            assert(self@.skip(i as int).drop_first() == self@.skip(i + 1));
            let process = chars_of(self.rules[i].process.as_str());
            if same_text(&process, &lowered) {
                proof {
                    lemma_label_not_empty(self@, lowered@, title@);
                }
                return self.rules[i].parser.parse(&shown);
            }
            i += 1;
        }
        None
    }
}

/// The subprogram of a window of the process `program` with the title
/// `title`: the site shown in a browser, the project open in an editor, and
/// nothing for any other program.
pub fn predict_subprogram(program: &str, title: &str) -> (r: Option<String>)
    ensures
        text_view(r) == spec_predict_subprogram(program@, title@),
        r matches Some(label) ==> label@.len() > 0,
{
    Classifier::standard().classify(program, title)
}

} // verus!
