//! The rules that turn the signals of a page into issues, and the score
//! that the issues add up to.

use vstd::prelude::*;
use crate::report::IssueSeverity;
use crate::report::IssueView;
use crate::report::SeoIssue;
use crate::report::issue_views;
use crate::text::decimal;
use crate::text::decimal_string;

verus! {

/// The least number of characters of a good title.
pub const TITLE_MIN_CHARS: usize = 30;

/// The greatest number of characters of a good title.
pub const TITLE_MAX_CHARS: usize = 60;

/// The least number of characters of a good meta description.
pub const DESCRIPTION_MIN_CHARS: usize = 120;

/// The greatest number of characters of a good meta description.
pub const DESCRIPTION_MAX_CHARS: usize = 160;

/// The score of a page without issues.
pub const FULL_SCORE: u32 = 100;

/// The page has no title.
pub open spec fn title_missing() -> IssueView {
    IssueView {
        severity: IssueSeverity::Critical,
        message: "Título ausente"@,
        recommendation: "Adicione um título à página usando a tag <title>"@,
    }
}

/// The title has fewer than thirty characters.
pub open spec fn title_too_short() -> IssueView {
    IssueView {
        severity: IssueSeverity::Warning,
        message: "Título muito curto"@,
        recommendation: "O título deve ter pelo menos 30 caracteres"@,
    }
}

/// The title has more than sixty characters.
pub open spec fn title_too_long() -> IssueView {
    IssueView {
        severity: IssueSeverity::Warning,
        message: "Título muito longo"@,
        recommendation: "O título deve ter no máximo 60 caracteres"@,
    }
}

/// The page has no meta description.
pub open spec fn description_missing() -> IssueView {
    IssueView {
        severity: IssueSeverity::Critical,
        message: "Meta description ausente"@,
        recommendation: "Adicione uma meta description à página"@,
    }
}

/// The meta description has fewer than 120 characters.
pub open spec fn description_too_short() -> IssueView {
    IssueView {
        severity: IssueSeverity::Warning,
        message: "Meta description muito curta"@,
        recommendation: "A meta description deve ter pelo menos 120 caracteres"@,
    }
}

/// The meta description has more than 160 characters.
pub open spec fn description_too_long() -> IssueView {
    IssueView {
        severity: IssueSeverity::Warning,
        message: "Meta description muito longa"@,
        recommendation: "A meta description deve ter no máximo 160 caracteres"@,
    }
}

/// The page has no first-level heading.
pub open spec fn h1_missing() -> IssueView {
    IssueView {
        severity: IssueSeverity::Critical,
        message: "Tag H1 ausente"@,
        recommendation: "Adicione pelo menos uma tag H1 à página"@,
    }
}

/// The page has more than one first-level heading.
pub open spec fn multiple_h1() -> IssueView {
    IssueView {
        severity: IssueSeverity::Warning,
        message: "Múltiplas tags H1"@,
        recommendation: "Use apenas uma tag H1 por página"@,
    }
}

/// `count` images have no alternative text.
pub open spec fn images_without_alt_issue(count: nat) -> IssueView {
    IssueView {
        severity: IssueSeverity::Warning,
        message: decimal(count) + " imagens sem texto alternativo"@,
        recommendation: "Adicione texto alternativo a todas as imagens"@,
    }
}

/// What the title rule finds: a missing title, or one whose number of
/// characters is under thirty or over sixty.
pub open spec fn title_issues(title: Option<Seq<char>>) -> Seq<IssueView> {
    match title {
        None => seq![title_missing()],
        Some(text) => if text.len() < TITLE_MIN_CHARS {
            seq![title_too_short()]
        } else if text.len() > TITLE_MAX_CHARS {
            seq![title_too_long()]
        } else {
            Seq::empty()
        },
    }
}

/// What the meta description rule finds: a missing description, or one whose
/// number of characters is under 120 or over 160.
pub open spec fn description_issues(description: Option<Seq<char>>) -> Seq<IssueView> {
    match description {
        None => seq![description_missing()],
        Some(text) => if text.len() < DESCRIPTION_MIN_CHARS {
            seq![description_too_short()]
        } else if text.len() > DESCRIPTION_MAX_CHARS {
            seq![description_too_long()]
        } else {
            Seq::empty()
        },
    }
}

/// What the heading rule finds: no first-level heading, or more than one.
pub open spec fn heading_issues(h1_count: nat) -> Seq<IssueView> {
    if h1_count == 0 {
        seq![h1_missing()]
    } else if h1_count > 1 {
        seq![multiple_h1()]
    } else {
        Seq::empty()
    }
}

/// What the image rule finds: one issue that carries the count, if any image
/// lacks alternative text.
pub open spec fn image_issues(images_without_alt: nat) -> Seq<IssueView> {
    if images_without_alt > 0 {
        seq![images_without_alt_issue(images_without_alt)]
    } else {
        Seq::empty()
    }
}

/// The issues of a page, in the order of the rules: title, meta description,
/// headings, images.
pub open spec fn issues_for(
    title: Option<Seq<char>>,
    description: Option<Seq<char>>,
    h1_count: nat,
    images_without_alt: nat,
) -> Seq<IssueView> {
    title_issues(title) + description_issues(description) + heading_issues(h1_count)
        + image_issues(images_without_alt)
}

/// What an issue of the given severity takes off the score.
pub open spec fn penalty(severity: IssueSeverity) -> nat {
    match severity {
        IssueSeverity::Critical => 20,
        IssueSeverity::Warning => 10,
        IssueSeverity::Info => 5,
    }
}

/// The sum of the penalties of `issues`.
pub open spec fn total_penalty(issues: Seq<IssueView>) -> nat
    decreases issues.len(),
{
    if issues.len() == 0 {
        0
    } else {
        total_penalty(issues.drop_last()) + penalty(issues.last().severity)
    }
}

/// A score less a penalty, and never less than zero.
pub open spec fn reduced(score: nat, by: nat) -> nat {
    if score >= by {
        (score - by) as nat
    } else {
        0
    }
}

/// The score of a list of issues: it starts at one hundred, and each issue
/// in turn takes its penalty off, as far as there is anything left.
pub open spec fn score_for(issues: Seq<IssueView>) -> nat
    decreases issues.len(),
{
    if issues.len() == 0 {
        FULL_SCORE as nat
    } else {
        reduced(score_for(issues.drop_last()), penalty(issues.last().severity))
    }
}

fn make_issue(severity: IssueSeverity, message: &str, recommendation: &str) -> (issue: SeoIssue)
    ensures
        issue@ == (IssueView {
            severity,
            message: message@,
            recommendation: recommendation@,
        }),
{
    SeoIssue {
        severity,
        message: String::from_str(message),
        recommendation: String::from_str(recommendation),
    }
}

/// Applies the title rule and appends what it finds.
fn check_title(title: &Option<String>, issues: &mut Vec<SeoIssue>)
    ensures
        issue_views(final(issues)@) == issue_views(old(issues)@) + title_issues(
            crate::report::option_view(*title),
        ),
{
    let ghost before = issue_views(issues@);
    match title {
        Some(text) => {
            let len = crate::text::char_count(text);
            if len < TITLE_MIN_CHARS {
                issues.push(
                    make_issue(
                        IssueSeverity::Warning,
                        "Título muito curto",
                        "O título deve ter pelo menos 30 caracteres",
                    ),
                );
            } else if len > TITLE_MAX_CHARS {
                issues.push(
                    make_issue(
                        IssueSeverity::Warning,
                        "Título muito longo",
                        "O título deve ter no máximo 60 caracteres",
                    ),
                );
            }
        },
        None => {
            issues.push(
                make_issue(
                    IssueSeverity::Critical,
                    "Título ausente",
                    "Adicione um título à página usando a tag <title>",
                ),
            );
        },
    }
    assert(issue_views(issues@) =~= before + title_issues(crate::report::option_view(*title)));
}

/// Applies the meta description rule and appends what it finds.
fn check_description(description: &Option<String>, issues: &mut Vec<SeoIssue>)
    ensures
        issue_views(final(issues)@) == issue_views(old(issues)@) + description_issues(
            crate::report::option_view(*description),
        ),
{
    let ghost before = issue_views(issues@);
    match description {
        Some(text) => {
            let len = crate::text::char_count(text);
            if len < DESCRIPTION_MIN_CHARS {
                issues.push(
                    make_issue(
                        IssueSeverity::Warning,
                        "Meta description muito curta",
                        "A meta description deve ter pelo menos 120 caracteres",
                    ),
                );
            } else if len > DESCRIPTION_MAX_CHARS {
                issues.push(
                    make_issue(
                        IssueSeverity::Warning,
                        "Meta description muito longa",
                        "A meta description deve ter no máximo 160 caracteres",
                    ),
                );
            }
        },
        None => {
            issues.push(
                make_issue(
                    IssueSeverity::Critical,
                    "Meta description ausente",
                    "Adicione uma meta description à página",
                ),
            );
        },
    }
    assert(issue_views(issues@) =~= before + description_issues(
        crate::report::option_view(*description),
    ));
}

/// Applies the heading rule and appends what it finds.
fn check_headings(h1_count: usize, issues: &mut Vec<SeoIssue>)
    ensures
        issue_views(final(issues)@) == issue_views(old(issues)@) + heading_issues(h1_count as nat),
{
    let ghost before = issue_views(issues@);
    if h1_count == 0 {
        issues.push(
            make_issue(
                IssueSeverity::Critical,
                "Tag H1 ausente",
                "Adicione pelo menos uma tag H1 à página",
            ),
        );
    } else if h1_count > 1 {
        issues.push(
            make_issue(
                IssueSeverity::Warning,
                "Múltiplas tags H1",
                "Use apenas uma tag H1 por página",
            ),
        );
    }
    assert(issue_views(issues@) =~= before + heading_issues(h1_count as nat));
}

/// Applies the image rule and appends what it finds.
fn check_images(images_without_alt: usize, issues: &mut Vec<SeoIssue>)
    ensures
        issue_views(final(issues)@) == issue_views(old(issues)@) + image_issues(
            images_without_alt as nat,
        ),
{
    let ghost before = issue_views(issues@);
    if images_without_alt > 0 {
        let mut message = decimal_string(images_without_alt);
        message.append(" imagens sem texto alternativo");
        let issue = SeoIssue {
            severity: IssueSeverity::Warning,
            message,
            recommendation: String::from_str("Adicione texto alternativo a todas as imagens"),
        };
        issues.push(issue);
    }
    assert(issue_views(issues@) =~= before + image_issues(images_without_alt as nat));
}

/// The issues of a page with the given signals, in the order of the rules.
pub fn issues_of_signals(
    title: &Option<String>,
    description: &Option<String>,
    h1_count: usize,
    images_without_alt: usize,
) -> (issues: Vec<SeoIssue>)
    ensures
        issue_views(issues@) == issues_for(
            crate::report::option_view(*title),
            crate::report::option_view(*description),
            h1_count as nat,
            images_without_alt as nat,
        ),
{
    let mut issues: Vec<SeoIssue> = Vec::new();
    assert(issue_views(issues@) =~= Seq::empty());
    check_title(title, &mut issues);
    check_description(description, &mut issues);
    check_headings(h1_count, &mut issues);
    check_images(images_without_alt, &mut issues);
    assert(issue_views(issues@) =~= issues_for(
        crate::report::option_view(*title),
        crate::report::option_view(*description),
        h1_count as nat,
        images_without_alt as nat,
    ));
    issues
}

/// The score of a list of issues.
pub fn score_of_issues(issues: &Vec<SeoIssue>) -> (score: u32)
    ensures
        score == score_for(issue_views(issues@)),
        score <= 100,
{
    let ghost views = issue_views(issues@);
    let mut score: u32 = FULL_SCORE;
    let mut i: usize = 0;
    while i < issues.len()
        invariant
            i <= issues.len(),
            views == issue_views(issues@),
            score == score_for(views.take(i as int)),
            score <= 100,
        decreases issues.len() - i,
    {
        proof {
            assert(views.take(i + 1).drop_last() == views.take(i as int));
            assert(views.take(i + 1).last().severity == issues@[i as int].severity);
        }
        score = match issues[i].severity {
            IssueSeverity::Critical => score.saturating_sub(20),
            IssueSeverity::Warning => score.saturating_sub(10),
            IssueSeverity::Info => score.saturating_sub(5),
        };
        i = i + 1;
    }
    assert(views.take(issues.len() as int) == views);
    score
}

/// The score is one hundred less the sum of the penalties where that sum is
/// under one hundred, and zero where it is not. So it lies between zero and
/// one hundred, and the order of the issues does not matter to it.
pub proof fn lemma_score_is_full_less_penalties(issues: Seq<IssueView>)
    ensures
        0 <= score_for(issues) <= 100,
        score_for(issues) == reduced(100, total_penalty(issues)),
    decreases issues.len(),
{
    if issues.len() > 0 {
        lemma_score_is_full_less_penalties(issues.drop_last());
    }
}

/// The three critical issues differ from each other, and the issue of several
/// first-level headings differs from every other warning.
pub proof fn lemma_issues_differ()
    ensures
        title_missing() != description_missing(),
        title_missing() != h1_missing(),
        description_missing() != h1_missing(),
        multiple_h1() != title_too_short(),
        multiple_h1() != title_too_long(),
        multiple_h1() != description_too_short(),
        multiple_h1() != description_too_long(),
        forall|count: nat| multiple_h1() != #[trigger] images_without_alt_issue(count),
{
    reveal_strlit("Título ausente");
    reveal_strlit("Meta description ausente");
    reveal_strlit("Tag H1 ausente");
    reveal_strlit("Múltiplas tags H1");
    reveal_strlit("Título muito curto");
    reveal_strlit("Título muito longo");
    reveal_strlit("Meta description muito curta");
    reveal_strlit("Meta description muito longa");
    reveal_strlit("Use apenas uma tag H1 por página");
    reveal_strlit("Adicione texto alternativo a todas as imagens");
    assert("Título ausente"@.len() != "Meta description ausente"@.len());
    assert("Título ausente"@[1] != "Tag H1 ausente"@[1]);
    assert("Meta description ausente"@.len() != "Tag H1 ausente"@.len());
    assert("Múltiplas tags H1"@.len() != "Título muito curto"@.len());
    assert("Múltiplas tags H1"@.len() != "Título muito longo"@.len());
    assert("Múltiplas tags H1"@.len() != "Meta description muito curta"@.len());
    assert("Múltiplas tags H1"@.len() != "Meta description muito longa"@.len());
    assert("Use apenas uma tag H1 por página"@.len()
        != "Adicione texto alternativo a todas as imagens"@.len());
}

/// Each rule finds at most one issue, so a page has at most four of them.
pub proof fn lemma_at_most_one_issue_per_rule(
    title: Option<Seq<char>>,
    description: Option<Seq<char>>,
    h1_count: nat,
    images_without_alt: nat,
)
    ensures
        title_issues(title).len() <= 1,
        description_issues(description).len() <= 1,
        heading_issues(h1_count).len() <= 1,
        image_issues(images_without_alt).len() <= 1,
        issues_for(title, description, h1_count, images_without_alt).len() <= 4,
{
}

/// A page without a title has the issue of the missing title, and has it
/// first; a page with a title does not have that issue.
pub proof fn lemma_title_missing_iff_reported(
    title: Option<Seq<char>>,
    description: Option<Seq<char>>,
    h1_count: nat,
    images_without_alt: nat,
)
    ensures
        title is None ==> issues_for(title, description, h1_count, images_without_alt)[0]
            == title_missing(),
        title is None <==> issues_for(title, description, h1_count, images_without_alt).contains(
            title_missing(),
        ),
{
    let all = issues_for(title, description, h1_count, images_without_alt);
    lemma_issues_differ();
    if title is None {
        assert(all[0] == title_missing());
    } else {
        assert forall|i: int| 0 <= i < all.len() implies all[i] != title_missing() by {
            lemma_issue_is_of_a_rule(title, description, h1_count, images_without_alt, i);
        }
    }
}

/// A page without a first-level heading has the issue of the missing
/// heading, and no other page has it.
pub proof fn lemma_h1_missing_iff_reported(
    title: Option<Seq<char>>,
    description: Option<Seq<char>>,
    h1_count: nat,
    images_without_alt: nat,
)
    ensures
        h1_count == 0 <==> issues_for(title, description, h1_count, images_without_alt).contains(
            h1_missing(),
        ),
{
    let all = issues_for(title, description, h1_count, images_without_alt);
    lemma_issues_differ();
    if h1_count == 0 {
        let at = title_issues(title).len() + description_issues(description).len();
        assert(all[at as int] == h1_missing());
    } else {
        assert forall|i: int| 0 <= i < all.len() implies all[i] != h1_missing() by {
            lemma_issue_is_of_a_rule(title, description, h1_count, images_without_alt, i);
        }
    }
}

/// A page with exactly one first-level heading has no issue about headings:
/// neither that of the missing heading nor that of several headings.
pub proof fn lemma_single_h1_has_no_heading_issue(
    title: Option<Seq<char>>,
    description: Option<Seq<char>>,
    images_without_alt: nat,
)
    ensures
        heading_issues(1) == Seq::<IssueView>::empty(),
        !issues_for(title, description, 1, images_without_alt).contains(h1_missing()),
        !issues_for(title, description, 1, images_without_alt).contains(multiple_h1()),
{
    let all = issues_for(title, description, 1, images_without_alt);
    lemma_issues_differ();
    assert forall|i: int| 0 <= i < all.len() implies all[i] != h1_missing() && all[i]
        != multiple_h1() by {
        lemma_issue_is_of_a_rule(title, description, 1, images_without_alt, i);
    }
}

/// Each issue of a page is the finding of one of the four rules.
proof fn lemma_issue_is_of_a_rule(
    title: Option<Seq<char>>,
    description: Option<Seq<char>>,
    h1_count: nat,
    images_without_alt: nat,
    i: int,
)
    requires
        0 <= i < issues_for(title, description, h1_count, images_without_alt).len(),
    ensures
        ({
            let issue = issues_for(title, description, h1_count, images_without_alt)[i];
            ||| title_issues(title) == seq![issue]
            ||| description_issues(description) == seq![issue]
            ||| heading_issues(h1_count) == seq![issue]
            ||| image_issues(images_without_alt) == seq![issue]
        }),
{
    let a = title_issues(title);
    let b = description_issues(description);
    let c = heading_issues(h1_count);
    let d = image_issues(images_without_alt);
    let issue = (a + b + c + d)[i];
    if i < a.len() {
        assert(a =~= seq![issue]);
    } else if i < a.len() + b.len() {
        assert(b =~= seq![issue]);
    } else if i < a.len() + b.len() + c.len() {
        assert(c =~= seq![issue]);
    } else {
        assert(d =~= seq![issue]);
    }
}

} // verus!
