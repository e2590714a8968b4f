use crate::cli::ProviderKind;
use crate::text::strings_view;
use vstd::prelude::*;

verus! {

/// The settings of one run. The allowlists and limits are the safety policy:
/// they stay as they are while a plan is applied.
#[derive(Debug)]
pub struct Config {
    pub root: String,
    pub vibe_out: String,
    pub provider: ProviderKind,
    pub model: String,
    pub task: String,
    pub dry_run: bool,
    pub auto_approve: bool,
    pub timeout_secs: u64,
    pub save_request: bool,
    pub save_response: bool,
    pub debug: bool,
    /// The path prefixes under which a plan may touch files.
    pub path_allowlist: Vec<String>,
    /// The commands that a plan may run.
    pub command_allowlist: Vec<String>,
    /// The most steps that a plan may have.
    pub max_actions: usize,
    /// The most bytes of content and patches that a plan may carry.
    pub max_patch_bytes: usize,
}

/// The path prefixes that are allowed where nothing else is configured.
pub open spec fn default_paths() -> Seq<Seq<char>> {
    seq![
        "src"@,
        "app"@,
        "pages"@,
        "components"@,
        "public"@,
        "package.json"@,
        "tsconfig.json"@,
        "next.config.js"@,
        "next.config.ts"@,
        "postcss.config.js"@,
        "postcss.config.mjs"@,
        "tailwind.config.js"@,
        "tailwind.config.ts"@,
        "eslint.config.js"@,
        "eslint.config.mjs"@,
    ]
}

/// The commands that are allowed where nothing else is configured.
pub open spec fn default_commands() -> Seq<Seq<char>> {
    seq![
        "npm ci"@,
        "npm run build"@,
        "npm run dev"@,
        "npm install"@,
        "npm i"@,
        "pnpm i"@,
        "pnpm build"@,
        "pnpm dev"@,
        "pnpm install"@,
        "pnpm add"@,
        "yarn"@,
        "yarn build"@,
        "yarn dev"@,
        "yarn install"@,
        "yarn add"@,
    ]
}

/// The path prefixes that are allowed where nothing else is configured.
pub fn default_path_allowlist() -> (r: Vec<String>)
    ensures
        strings_view(r@) == default_paths(),
{
    let mut r: Vec<String> = Vec::new();
    r.push("src".to_owned());
    r.push("app".to_owned());
    r.push("pages".to_owned());
    r.push("components".to_owned());
    r.push("public".to_owned());
    r.push("package.json".to_owned());
    r.push("tsconfig.json".to_owned());
    r.push("next.config.js".to_owned());
    r.push("next.config.ts".to_owned());
    r.push("postcss.config.js".to_owned());
    r.push("postcss.config.mjs".to_owned());
    r.push("tailwind.config.js".to_owned());
    r.push("tailwind.config.ts".to_owned());
    r.push("eslint.config.js".to_owned());
    r.push("eslint.config.mjs".to_owned());
    assert(strings_view(r@) =~= default_paths());
    r
}

/// The commands that are allowed where nothing else is configured.
pub fn default_command_allowlist() -> (r: Vec<String>)
    ensures
        strings_view(r@) == default_commands(),
{
    let mut r: Vec<String> = Vec::new();
    r.push("npm ci".to_owned());
    r.push("npm run build".to_owned());
    r.push("npm run dev".to_owned());
    r.push("npm install".to_owned());
    r.push("npm i".to_owned());
    r.push("pnpm i".to_owned());
    r.push("pnpm build".to_owned());
    r.push("pnpm dev".to_owned());
    r.push("pnpm install".to_owned());
    r.push("pnpm add".to_owned());
    r.push("yarn".to_owned());
    r.push("yarn build".to_owned());
    r.push("yarn dev".to_owned());
    r.push("yarn install".to_owned());
    r.push("yarn add".to_owned());
    assert(strings_view(r@) =~= default_commands());
    r
}

impl Default for Config {
    fn default() -> (r: Self)
        ensures
            r.root@ == "."@,
            r.vibe_out@ == ".vibe/out"@,
            r.provider == ProviderKind::OpenAI,
            r.model@ == "gpt-4o-mini"@,
            r.task@.len() == 0,
            !r.dry_run,
            !r.auto_approve,
            r.timeout_secs == 2400,
            r.save_request,
            r.save_response,
            !r.debug,
            strings_view(r.path_allowlist@) == default_paths(),
            strings_view(r.command_allowlist@) == default_commands(),
            r.max_actions == 64,
            r.max_patch_bytes == 1048576,
    {
        Config {
            root: ".".to_owned(),
            vibe_out: ".vibe/out".to_owned(),
            provider: ProviderKind::OpenAI,
            model: "gpt-4o-mini".to_owned(),
            task: String::new(),
            dry_run: false,
            auto_approve: false,
            timeout_secs: 2400,
            save_request: true,
            save_response: true,
            debug: false,
            path_allowlist: default_path_allowlist(),
            command_allowlist: default_command_allowlist(),
            max_actions: 64,
            max_patch_bytes: 1048576,
        }
    }
}

} // verus!
