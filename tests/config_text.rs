use repo_scan::config_text::{detect_from_lower_text, detect_from_text, text_rules, ConfigKind};
use repo_scan::language_stats::{
    tech_language_from_extension, FileStep, LanguageStatsCollector, TechLanguage,
};
use repo_scan::techstack::TechStackScanOptions;

fn ids(v: &[repo_scan::js::TechComponent]) -> Vec<(String, u32, Vec<String>)> {
    v.iter().map(|c| (c.id.clone(), c.confidence_percent, c.evidence.clone())).collect()
}

#[test]
fn python_text_rules() {
    let found = detect_from_lower_text(ConfigKind::Python, "django>=4\nasyncpg\n", "requirements.txt");
    assert_eq!(
        ids(&found),
        vec![
            ("python".to_string(), 70, vec!["Python config: requirements.txt".to_string()]),
            ("django".to_string(), 88, vec!["requirements.txt: django".to_string()]),
            ("postgres".to_string(), 75, vec!["requirements.txt: psycopg2/asyncpg".to_string()]),
        ]
    );
}

#[test]
fn text_is_compared_in_lower_case() {
    let found = detect_from_text(ConfigKind::Java, "<artifactId>Spring-Boot-Starter</artifactId>\nJUnit", "pom.xml");
    let got: Vec<&str> = found.iter().map(|c| c.id.as_str()).collect();
    assert_eq!(got, vec!["java", "spring-boot", "junit"]);
    let upper_only = detect_from_lower_text(ConfigKind::Java, "Spring-Boot", "pom.xml");
    assert_eq!(upper_only.len(), 1);
}

#[test]
fn fixed_evidence_and_other_kinds() {
    let found = detect_from_text(ConfigKind::Go, "require github.com/gin-gonic/gin v1\n", "go.mod");
    assert_eq!(found[1].evidence, vec!["go.mod: gin-gonic/gin"]);
    let found = detect_from_text(ConfigKind::Docker, "image: mongo:7\nimage: redis", "docker-compose.yml");
    let got: Vec<&str> = found.iter().map(|c| c.id.as_str()).collect();
    assert_eq!(got, vec!["docker", "mongodb", "redis"]);
    let found = detect_from_text(ConfigKind::Prisma, "datasource db { provider = \"postgresql\" }", "prisma/schema.prisma");
    assert_eq!(found[0].evidence, vec!["Prisma schema: prisma/schema.prisma"]);
    assert_eq!(found[1].id, "postgres");
    assert_eq!(text_rules(ConfigKind::Ruby).len(), 2);
}

#[test]
fn language_table_of_tech_scan() {
    assert_eq!(tech_language_from_extension("src/Main.JAVA"), TechLanguage::Java);
    assert_eq!(tech_language_from_extension("a/b.hpp"), TechLanguage::CFamily);
    assert_eq!(TechLanguage::CFamily.name(), "C/C++");
    assert_eq!(TechLanguage::CSharp.name(), "C#");
    assert_eq!(tech_language_from_extension("Makefile"), TechLanguage::Other);
}

#[test]
fn walk_limits() {
    let options = TechStackScanOptions { max_files: 3, max_total_bytes: 100 };
    let mut c = LanguageStatsCollector::new(&options);
    assert_eq!(c.on_file(40, TechLanguage::Go), FileStep::Count);
    assert_eq!(c.on_file(6 * 1024 * 1024, TechLanguage::Go), FileStep::Skip);
    assert_eq!(c.on_file(70, TechLanguage::Rust), FileStep::Stop);
    assert!(c.stopped_early);
    assert_eq!(c.bytes[TechLanguage::Go.index()], 40);
    assert_eq!(c.files[TechLanguage::Go.index()], 1);
    assert_eq!(c.bytes[TechLanguage::Rust.index()], 0);
    let mut d = LanguageStatsCollector::new(&TechStackScanOptions { max_files: 1, max_total_bytes: 1000 });
    assert_eq!(d.on_file(1, TechLanguage::Go), FileStep::Count);
    assert_eq!(d.on_file(1, TechLanguage::Go), FileStep::Stop);
    assert_eq!(d.processed_files, 2);
}
