//! The rules that a planner starts with when it is given none.

use vstd::prelude::*;
use vstd::string::StringExecFns;
use crate::planner::reasoning::pattern_matcher::{Pattern, PatternView};

verus! {
/// Expression of the rule `file_operations`.
pub const FILE_REGEX: &'static str = "(?i)(?P<action>list|read|write|delete|copy|move)\\s+(?P<type>files?|directors?|folders?)\\s+(?:in|from|to)?\\s+(?P<path>.+)";
/// Template of the rule `file_operations`.
pub const FILE_TEMPLATE: &'static str =
    "// File operation: {{action}} {{type}} in {{path}}\nif (\"{{action}}\" == \"list\") {\nιfiles = 📂(\"{{path}}\");\n∀(files, λfile {\n⌽(file);\n});\n} else if (\"{{action}}\" == \"read\") {\nιcontent = 📖(\"{{path}}\");\n⌽(content);\n} else if (\"{{action}}\" == \"write\") {\nιcontent = \"Content to write\";\n✍(\"{{path}}\", content);\n⌽(\"File written successfully\");\n} else if (\"{{action}}\" == \"delete\") {\n✂(\"{{path}}\");\n⌽(\"File deleted successfully\");\n} else if (\"{{action}}\" == \"copy\") {\nιdest = \"destination/path\";\n⧉(\"{{path}}\", dest);\n⌽(\"File copied successfully\");\n} else if (\"{{action}}\" == \"move\") {\nιdest = \"destination/path\";\n↷(\"{{path}}\", dest);\n⌽(\"File moved successfully\");\n}";
/// Expression of the rule `http_request`.
pub const HTTP_REGEX: &'static str = "(?i)(?P<method>get|fetch|download|post|send)\\s+(?:data\\s+(?:from|to))?\\s+(?P<url>https?://\\S+)";
/// Template of the rule `http_request`.
pub const HTTP_TEMPLATE: &'static str =
    "// HTTP request: {{method}} from {{url}}\nif (\"{{method}}\" == \"get\" || \"{{method}}\" == \"fetch\" || \"{{method}}\" == \"download\") {\n⌽(\"Fetching data from {{url}}...\");\nιresponse = ↗(\"{{url}}\");\n⌽(`Status code: ${response.s}`);\nιcontent = response.b;\n⌽(content);\n} else if (\"{{method}}\" == \"post\" || \"{{method}}\" == \"send\") {\nιdata = \"{\\\"key\\\": \\\"value\\\"}\";\n⌽(\"Sending data to {{url}}...\");\nιresponse = ↓(\"{{url}}\", data);\n⌽(`Status code: ${response.s}`);\nιcontent = response.b;\n⌽(content);\n}";
/// Expression of the rule `user_input`.
pub const INPUT_REGEX: &'static str = "(?i)(?:get|ask|prompt|request)\\s+(?:for|user\\s+for)?\\s+(?P<input_type>input|name|value|text|response)(?:\\s+about\\s+(?P<topic>.+))?";
/// Template of the rule `user_input`.
pub const INPUT_TEMPLATE: &'static str =
    "// Get user input about {{topic}}\n⌽(\"Requesting user input...\");\nιprompt = \"Please provide {{input_type}}\";\nif (\"{{topic}}\" != \"\") {\nprompt = `Please provide {{input_type}} about {{topic}}`;\n}\n📤(\"prompt.txt\", prompt);\n⌽(\"Waiting for user input...\");\nιinput_ready = 📩(\"response.txt\", \"30000\");\nif (input_ready == \"true\") {\nιuser_input = 📥(\"response.txt\");\n⌽(`Received input: ${user_input}`);\n} else {\n⌽(\"User did not provide input in time.\");\n}";
/// Expression of the rule `memory_operations`.
pub const MEMORY_REGEX: &'static str = "(?i)(?P<action>store|save|remember|retrieve|recall|get|forget|delete)\\s+(?P<item>.+?)(?:\\s+(?:in|from|to)\\s+memory)?";
/// Template of the rule `memory_operations`.
pub const MEMORY_TEMPLATE: &'static str =
    "// Memory operation: {{action}} {{item}}\nif (\"{{action}}\" == \"store\" || \"{{action}}\" == \"save\" || \"{{action}}\" == \"remember\") {\nιkey = \"{{item}}\";\nιvalue = \"Value to store\";\n📝(key, value);\n⌽(`Stored ${key} in memory`);\n} else if (\"{{action}}\" == \"retrieve\" || \"{{action}}\" == \"recall\" || \"{{action}}\" == \"get\") {\nιkey = \"{{item}}\";\n÷{\nιvalue = 📖(key);\n⌽(`Retrieved ${key} from memory: ${value}`);\n}{\n⌽(`Could not find ${key} in memory`);\n}\n} else if (\"{{action}}\" == \"forget\" || \"{{action}}\" == \"delete\") {\nιkey = \"{{item}}\";\n🗑(key);\n⌽(`Deleted ${key} from memory`);\n}";
/// What a rule with two tags holds.
pub open spec fn rule_view(
    id: Seq<char>,
    regex: Seq<char>,
    priority: u8,
    first_tag: Seq<char>,
    second_tag: Seq<char>,
    template: Seq<char>,
    description: Seq<char>,
) -> PatternView {
    PatternView { id, regex, priority, tags: seq![first_tag, second_tag], template, description }
}

fn rule(
    id: &str,
    regex: &str,
    priority: u8,
    first_tag: &str,
    second_tag: &str,
    template: &str,
    description: &str,
) -> (r: Pattern)
    ensures
        r@ == rule_view(id@, regex@, priority, first_tag@, second_tag@, template@, description@),
{
    let mut tags: Vec<String> = Vec::new();
    tags.push(String::from_str(first_tag));
    tags.push(String::from_str(second_tag));
    assert(tags.deep_view() =~= seq![first_tag@, second_tag@]);
    Pattern {
        id: String::from_str(id),
        regex: String::from_str(regex),
        priority,
        tags,
        template: String::from_str(template),
        description: String::from_str(description),
    }
}

/// The default rules: file operations, HTTP requests, user input and memory
/// operations.
pub open spec fn default_rules() -> Seq<PatternView> {
    seq![
        rule_view(
            "file_operations"@,
            FILE_REGEX@,
            80,
            "file"@,
            "filesystem"@,
            FILE_TEMPLATE@,
            "Pattern for file system operations"@,
        ),
        rule_view(
            "http_request"@,
            HTTP_REGEX@,
            75,
            "http"@,
            "network"@,
            HTTP_TEMPLATE@,
            "Pattern for HTTP requests"@,
        ),
        rule_view(
            "user_input"@,
            INPUT_REGEX@,
            85,
            "input"@,
            "user"@,
            INPUT_TEMPLATE@,
            "Pattern for getting user input"@,
        ),
        rule_view(
            "memory_operations"@,
            MEMORY_REGEX@,
            70,
            "memory"@,
            "storage"@,
            MEMORY_TEMPLATE@,
            "Pattern for memory operations"@,
        ),
    ]
}

/// The default rules.
pub fn default_patterns() -> (r: Vec<Pattern>)
    ensures
        r.deep_view() == default_rules(),
{
    let mut patterns: Vec<Pattern> = Vec::new();
    patterns.push(
        rule(
            "file_operations",
            FILE_REGEX,
            80,
            "file",
            "filesystem",
            FILE_TEMPLATE,
            "Pattern for file system operations",
        ),
    );
    patterns.push(
        rule(
            "http_request",
            HTTP_REGEX,
            75,
            "http",
            "network",
            HTTP_TEMPLATE,
            "Pattern for HTTP requests",
        ),
    );
    patterns.push(
        rule(
            "user_input",
            INPUT_REGEX,
            85,
            "input",
            "user",
            INPUT_TEMPLATE,
            "Pattern for getting user input",
        ),
    );
    patterns.push(
        rule(
            "memory_operations",
            MEMORY_REGEX,
            70,
            "memory",
            "storage",
            MEMORY_TEMPLATE,
            "Pattern for memory operations",
        ),
    );
    assert(patterns.deep_view() =~= default_rules());
    patterns
}

} // verus!
