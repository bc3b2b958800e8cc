//! Technologies named by build and configuration files of other ecosystems, read as
//! lower-case text.
use vstd::prelude::*;

use crate::classify::string_views;
use crate::js::{component_view, component_views, opt_str, TechComponent};
use crate::text::{chars_of, contains, contains_str};

verus! {

/// The configuration files read as text.
#[derive(Clone, Copy, Debug, PartialEq, Eq, Structural)]
pub enum ConfigKind {
    Python,
    Java,
    Go,
    Ruby,
    Docker,
    Prisma,
}

/// A text rule: the component it yields when the text contains one of its patterns (the
/// first rule of each kind has the empty pattern and always applies), and its evidence:
/// a prefix, the file's name when `with_file` holds, and a suffix.
pub struct TextRule {
    pub id: &'static str,
    pub name: &'static str,
    pub category: &'static str,
    pub pat1: &'static str,
    pub pat2: Option<&'static str>,
    pub confidence_percent: u32,
    pub prefix: &'static str,
    pub with_file: bool,
    pub suffix: &'static str,
}

pub struct TextRuleView {
    pub id: Seq<char>,
    pub name: Seq<char>,
    pub category: Seq<char>,
    pub pat1: Seq<char>,
    pub pat2: Option<Seq<char>>,
    pub confidence_percent: u32,
    pub prefix: Seq<char>,
    pub with_file: bool,
    pub suffix: Seq<char>,
}

pub open spec fn tr(
    id: Seq<char>,
    name: Seq<char>,
    category: Seq<char>,
    pat1: Seq<char>,
    pat2: Option<Seq<char>>,
    confidence_percent: u32,
    prefix: Seq<char>,
    with_file: bool,
    suffix: Seq<char>,
) -> TextRuleView {
    TextRuleView { id, name, category, pat1, pat2, confidence_percent, prefix, with_file, suffix }
}

pub open spec fn text_rule_view(r: TextRule) -> TextRuleView {
    tr(r.id@, r.name@, r.category@, r.pat1@, opt_str(r.pat2), r.confidence_percent, r.prefix@, r.with_file, r.suffix@)
}

pub open spec fn text_rule_views(v: Seq<TextRule>) -> Seq<TextRuleView> {
    v.map_values(|r: TextRule| text_rule_view(r))
}

/// The rules of each kind of file, in the order their components are listed.
pub open spec fn text_rule_table(k: ConfigKind) -> Seq<TextRuleView> {
    match k {
        ConfigKind::Python => seq![
            tr("python"@, "Python"@, "backend"@, ""@, None, 70, "Python config: "@, true, ""@),
            tr("django"@, "Django"@, "backend"@, "django"@, None, 88, ""@, true, ": django"@),
            tr("fastapi"@, "FastAPI"@, "backend"@, "fastapi"@, None, 88, ""@, true, ": fastapi"@),
            tr("flask"@, "Flask"@, "backend"@, "flask"@, None, 85, ""@, true, ": flask"@),
            tr("pytest"@, "pytest"@, "test"@, "pytest"@, None, 85, ""@, true, ": pytest"@),
            tr("sqlalchemy"@, "SQLAlchemy"@, "database"@, "sqlalchemy"@, None, 80, ""@, true, ": sqlalchemy"@),
            tr("postgres"@, "PostgreSQL"@, "database"@, "psycopg2"@, Some("asyncpg"@), 75, ""@, true, ": psycopg2/asyncpg"@),
            tr("mongodb"@, "MongoDB"@, "database"@, "pymongo"@, None, 75, ""@, true, ": pymongo"@),
        ],
        ConfigKind::Java => seq![
            tr("java"@, "Java"@, "backend"@, ""@, None, 70, "Java build file: "@, true, ""@),
            tr("spring-boot"@, "Spring Boot"@, "backend"@, "spring-boot"@, Some("org.springframework.boot"@), 90, ""@, true, ": spring boot"@),
            tr("junit"@, "JUnit"@, "test"@, "junit"@, None, 80, ""@, true, ": junit"@),
            tr("hibernate"@, "Hibernate"@, "database"@, "hibernate"@, None, 78, ""@, true, ": hibernate"@),
        ],
        ConfigKind::Go => seq![
            tr("go"@, "Go"@, "backend"@, ""@, None, 75, "go.mod found: "@, true, ""@),
            tr("gin"@, "Gin"@, "backend"@, "github.com/gin-gonic/gin"@, None, 85, "go.mod: gin-gonic/gin"@, false, ""@),
            tr("gorm"@, "GORM"@, "database"@, "gorm.io/gorm"@, None, 80, "go.mod: gorm.io/gorm"@, false, ""@),
        ],
        ConfigKind::Ruby => seq![
            tr("ruby"@, "Ruby"@, "backend"@, ""@, None, 65, "Gemfile found: "@, true, ""@),
            tr("rails"@, "Ruby on Rails"@, "backend"@, "rails"@, None, 85, "Gemfile: rails"@, false, ""@),
        ],
        ConfigKind::Docker => seq![
            tr("docker"@, "Docker"@, "infra"@, ""@, None, 80, "container config: "@, true, ""@),
            tr("postgres"@, "PostgreSQL"@, "database"@, "postgres"@, None, 70, ""@, true, ": postgres"@),
            tr("mysql"@, "MySQL"@, "database"@, "mysql"@, None, 70, ""@, true, ": mysql"@),
            tr("mariadb"@, "MariaDB"@, "database"@, "mariadb"@, None, 70, ""@, true, ": mariadb"@),
            tr("mongodb"@, "MongoDB"@, "database"@, "mongo"@, None, 70, ""@, true, ": mongo"@),
            tr("redis"@, "Redis"@, "database"@, "redis"@, None, 70, ""@, true, ": redis"@),
        ],
        ConfigKind::Prisma => seq![
            tr("prisma"@, "Prisma"@, "database"@, ""@, None, 90, "Prisma schema: "@, true, ""@),
            tr("postgres"@, "PostgreSQL"@, "database"@, "provider = \"postgresql\""@, None, 85, "schema.prisma: provider=postgresql"@, false, ""@),
            tr("mysql"@, "MySQL"@, "database"@, "provider = \"mysql\""@, None, 85, "schema.prisma: provider=mysql"@, false, ""@),
            tr("mongodb"@, "MongoDB"@, "database"@, "provider = \"mongodb\""@, None, 85, "schema.prisma: provider=mongodb"@, false, ""@),
        ],
    }
}

fn text_rule(
    id: &'static str,
    name: &'static str,
    category: &'static str,
    pat1: &'static str,
    pat2: Option<&'static str>,
    confidence_percent: u32,
    prefix: &'static str,
    with_file: bool,
    suffix: &'static str,
) -> (r: TextRule)
    ensures
        text_rule_view(r) == tr(id@, name@, category@, pat1@, opt_str(pat2), confidence_percent, prefix@, with_file, suffix@),
{
    TextRule { id, name, category, pat1, pat2, confidence_percent, prefix, with_file, suffix }
}

/// The rules for one kind of file.
pub fn text_rules(k: ConfigKind) -> (r: Vec<TextRule>)
    ensures
        text_rule_views(r@) == text_rule_table(k),
{
    let mut v: Vec<TextRule> = Vec::new();
    match k {
        ConfigKind::Python => {
            v.push(text_rule("python", "Python", "backend", "", None, 70, "Python config: ", true, ""));
            v.push(text_rule("django", "Django", "backend", "django", None, 88, "", true, ": django"));
            v.push(text_rule("fastapi", "FastAPI", "backend", "fastapi", None, 88, "", true, ": fastapi"));
            v.push(text_rule("flask", "Flask", "backend", "flask", None, 85, "", true, ": flask"));
            v.push(text_rule("pytest", "pytest", "test", "pytest", None, 85, "", true, ": pytest"));
            v.push(text_rule("sqlalchemy", "SQLAlchemy", "database", "sqlalchemy", None, 80, "", true, ": sqlalchemy"));
            v.push(text_rule("postgres", "PostgreSQL", "database", "psycopg2", Some("asyncpg"), 75, "", true, ": psycopg2/asyncpg"));
            v.push(text_rule("mongodb", "MongoDB", "database", "pymongo", None, 75, "", true, ": pymongo"));
        },
        ConfigKind::Java => {
            v.push(text_rule("java", "Java", "backend", "", None, 70, "Java build file: ", true, ""));
            v.push(text_rule("spring-boot", "Spring Boot", "backend", "spring-boot", Some("org.springframework.boot"), 90, "", true, ": spring boot"));
            v.push(text_rule("junit", "JUnit", "test", "junit", None, 80, "", true, ": junit"));
            v.push(text_rule("hibernate", "Hibernate", "database", "hibernate", None, 78, "", true, ": hibernate"));
        },
        ConfigKind::Go => {
            v.push(text_rule("go", "Go", "backend", "", None, 75, "go.mod found: ", true, ""));
            v.push(text_rule("gin", "Gin", "backend", "github.com/gin-gonic/gin", None, 85, "go.mod: gin-gonic/gin", false, ""));
            v.push(text_rule("gorm", "GORM", "database", "gorm.io/gorm", None, 80, "go.mod: gorm.io/gorm", false, ""));
        },
        ConfigKind::Ruby => {
            v.push(text_rule("ruby", "Ruby", "backend", "", None, 65, "Gemfile found: ", true, ""));
            v.push(text_rule("rails", "Ruby on Rails", "backend", "rails", None, 85, "Gemfile: rails", false, ""));
        },
        ConfigKind::Docker => {
            v.push(text_rule("docker", "Docker", "infra", "", None, 80, "container config: ", true, ""));
            v.push(text_rule("postgres", "PostgreSQL", "database", "postgres", None, 70, "", true, ": postgres"));
            v.push(text_rule("mysql", "MySQL", "database", "mysql", None, 70, "", true, ": mysql"));
            v.push(text_rule("mariadb", "MariaDB", "database", "mariadb", None, 70, "", true, ": mariadb"));
            v.push(text_rule("mongodb", "MongoDB", "database", "mongo", None, 70, "", true, ": mongo"));
            v.push(text_rule("redis", "Redis", "database", "redis", None, 70, "", true, ": redis"));
        },
        ConfigKind::Prisma => {
            v.push(text_rule("prisma", "Prisma", "database", "", None, 90, "Prisma schema: ", true, ""));
            v.push(text_rule("postgres", "PostgreSQL", "database", "provider = \"postgresql\"", None, 85, "schema.prisma: provider=postgresql", false, ""));
            v.push(text_rule("mysql", "MySQL", "database", "provider = \"mysql\"", None, 85, "schema.prisma: provider=mysql", false, ""));
            v.push(text_rule("mongodb", "MongoDB", "database", "provider = \"mongodb\"", None, 85, "schema.prisma: provider=mongodb", false, ""));
        },
    }
    assert(text_rule_views(v@) =~= text_rule_table(k));
    v
}

pub open spec fn text_rule_applies(r: TextRuleView, text: Seq<char>) -> bool {
    contains(text, r.pat1) || (r.pat2.is_some() && contains(text, r.pat2.unwrap()))
}

pub open spec fn text_component(r: TextRuleView, file: Seq<char>) -> (Seq<char>, Seq<char>, Seq<char>, Option<Seq<char>>, u32, Seq<Seq<char>>) {
    (r.id, r.name, r.category, None, r.confidence_percent, seq![r.prefix + (if r.with_file { file } else { Seq::empty() }) + r.suffix])
}

/// The components the rules find in a lower-case text, in rule order.
pub open spec fn text_detected(rules: Seq<TextRuleView>, text: Seq<char>, file: Seq<char>) -> Seq<(Seq<char>, Seq<char>, Seq<char>, Option<Seq<char>>, u32, Seq<Seq<char>>)> {
    rules.filter(|r: TextRuleView| text_rule_applies(r, text)).map_values(|r: TextRuleView| text_component(r, file))
}

fn apply_text_rule(r: &TextRule, text: &Vec<char>, file: &str) -> (c: Option<TechComponent>)
    ensures
        match c {
            Some(x) => text_rule_applies(text_rule_view(*r), text@) && component_view(x) == text_component(text_rule_view(*r), file@),
            None => !text_rule_applies(text_rule_view(*r), text@),
        },
{
    let hit = contains_str(text, r.pat1) || match r.pat2 {
        Some(p) => contains_str(text, p),
        None => false,
    };
    if !hit {
        return None;
    }
    let mut e = String::from_str(r.prefix);
    if r.with_file {
        e.append(file);
    }
    e.append(r.suffix);
    let mut evidence: Vec<String> = Vec::new();
    let ghost ev = e@;
    evidence.push(e);
    assert(string_views(evidence@) =~= seq![ev]);
    proof {
        if !r.with_file {
            assert(r.prefix@ + Seq::<char>::empty() =~= r.prefix@);
        }
    }
    Some(TechComponent {
        id: String::from_str(r.id),
        name: String::from_str(r.name),
        category: String::from_str(r.category),
        version: None,
        confidence_percent: r.confidence_percent,
        evidence,
    })
}

/// The components that a kind's rules find in a configuration text already in lower
/// case; `file` names the file in the evidence.
pub fn detect_from_lower_text(k: ConfigKind, lower: &str, file: &str) -> (r: Vec<TechComponent>)
    ensures
        component_views(r@) == text_detected(text_rule_table(k), lower@, file@),
{
    let rules = text_rules(k);
    let text = chars_of(lower);
    let ghost rv = text_rule_views(rules@);
    let mut out: Vec<TechComponent> = Vec::new();
    let mut i: usize = 0;
    while i < rules.len()
        invariant
            i <= rules@.len(),
            rv == text_rule_views(rules@),
            rv == text_rule_table(k),
            text@ == lower@,
            component_views(out@) == text_detected(rv.subrange(0, i as int), lower@, file@),
        decreases rules@.len() - i,
    {
        let ghost pre = rv.subrange(0, i as int);
        proof {
            pre.lemma_filter_push(rv[i as int], |r: TextRuleView| text_rule_applies(r, lower@));
            assert(pre.push(rv[i as int]) =~= rv.subrange(0, i + 1));
        }
        match apply_text_rule(&rules[i], &text, file) {
            Some(c) => {
                let ghost before = out@;
                out.push(c);
                proof {
                    let f = pre.filter(|r: TextRuleView| text_rule_applies(r, lower@));
                    assert(f.push(rv[i as int]).map_values(|r: TextRuleView| text_component(r, file@)) =~= f.map_values(
                        |r: TextRuleView| text_component(r, file@),
                    ).push(text_component(rv[i as int], file@)));
                    assert(component_views(out@) =~= component_views(before).push(component_view(c)));
                }
            },
            None => {},
        }
        i += 1;
    }
    assert(rv.subrange(0, rv.len() as int) =~= rv);
    out
}

/// The Unicode lower case of a text.
pub uninterp spec fn unicode_lower(s: Seq<char>) -> Seq<char>;

/// Relies on `str::to_lowercase`: the lower-case text depends on the characters alone.
#[verifier::external_body]
fn to_lowercase(s: &str) -> (r: String)
    ensures
        r@ == unicode_lower(s@),
{
    s.to_lowercase()
}

/// The components a kind's rules find in a configuration text, compared in lower case.
pub fn detect_from_text(k: ConfigKind, raw: &str, file: &str) -> (r: Vec<TechComponent>)
    ensures
        component_views(r@) == text_detected(text_rule_table(k), unicode_lower(raw@), file@),
{
    let lower = to_lowercase(raw);
    detect_from_lower_text(k, lower.as_str(), file)
}

} // verus!
