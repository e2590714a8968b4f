use crate::text::{append_chars, chars_of, string_of, strings_view};
use crate::wire::{steps_view, Plan, PlanView, Step, StepView};
use vstd::prelude::*;

verus! {

/// What a prompt says where no file was selected.
pub open spec fn no_files_text() -> Seq<char> {
    "No preselected files were provided."@
}

/// The first `n` files, one to a line, each behind a dash.
pub open spec fn file_lines(files: Seq<Seq<char>>, n: int) -> Seq<char>
    decreases n,
{
    if n <= 0 {
        Seq::empty()
    } else {
        file_lines(files, n - 1) + " - "@ + files[n - 1] + "\n"@
    }
}

/// The files of interest as a prompt lists them.
pub open spec fn file_list_text(files: Seq<Seq<char>>) -> Seq<char> {
    if files.len() == 0 {
        no_files_text()
    } else {
        file_lines(files, files.len() as int)
    }
}

/// One step as a prompt lists it: the action, what it is about, and the
/// title behind a dash.
pub open spec fn step_line(s: StepView) -> Seq<char> {
    match s {
        StepView::Create { path, title, .. } => " - CREATE "@ + path + " — "@ + title + "\n"@,
        StepView::Update { path, title, .. } => " - UPDATE "@ + path + " — "@ + title + "\n"@,
        StepView::Delete { path, title, .. } => " - DELETE "@ + path + " — "@ + title + "\n"@,
        StepView::Command { command, title, .. } => " - COMMAND \""@ + command + "\" — "@ + title
            + "\n"@,
        StepView::Test { command, title, .. } => " - TEST \""@ + command + "\" — "@ + title + "\n"@,
    }
}

/// The first `n` steps as a prompt lists them.
pub open spec fn step_lines(steps: Seq<StepView>, n: int) -> Seq<char>
    decreases n,
{
    if n <= 0 {
        Seq::empty()
    } else {
        step_lines(steps, n - 1) + step_line(steps[n - 1])
    }
}

fn push_text(out: &mut Vec<char>, text: &str)
    ensures
        final(out)@ == old(out)@ + text@,
{
    append_chars(out, &chars_of(text));
}

/// The files of interest as a prompt lists them: one to a line, or a
/// sentence that says that there are none.
pub fn file_list(ctx_files: &[String]) -> (r: String)
    ensures
        r@ == file_list_text(strings_view(ctx_files@)),
{
    if ctx_files.len() == 0 {
        return "No preselected files were provided.".to_owned();
    }
    let ghost files = strings_view(ctx_files@);
    let mut out: Vec<char> = Vec::new();
    let mut i: usize = 0;
    while i < ctx_files.len()
        invariant
            i <= ctx_files.len(),
            files == strings_view(ctx_files@),
            out@ == file_lines(files, i as int),
        decreases ctx_files.len() - i,
    {
        assert(files[i as int] == ctx_files@[i as int]@);
        push_text(&mut out, " - ");
        push_text(&mut out, ctx_files[i].as_str());
        push_text(&mut out, "\n");
        i += 1;
    }
    string_of(&out)
}

fn push_step(out: &mut Vec<char>, action: &str, quote: &str, subject: &str, title: &str)
    ensures
        final(out)@ == old(out)@ + (action@ + subject@ + quote@ + title@ + "\n"@),
{
    push_text(out, action);
    push_text(out, subject);
    push_text(out, quote);
    push_text(out, title);
    push_text(out, "\n");
    assert(out@ == old(out)@ + (action@ + subject@ + quote@ + title@ + "\n"@));
}

/// The steps of an approved plan as a prompt lists them.
pub fn step_list(plan: &Plan) -> (r: String)
    ensures
        r@ == step_lines(plan@.steps, plan@.steps.len() as int),
{
    let ghost sv = plan@.steps;
    let mut out: Vec<char> = Vec::new();
    let mut i: usize = 0;
    while i < plan.steps.len()
        invariant
            i <= plan.steps.len(),
            sv == steps_view(plan.steps@),
            out@ == step_lines(sv, i as int),
        decreases plan.steps.len() - i,
    {
        assert(sv[i as int] == plan.steps@[i as int]@);
        match &plan.steps[i] {
            Step::Create { path, title, .. } => push_step(
                &mut out,
                " - CREATE ",
                " — ",
                path.as_str(),
                title.as_str(),
            ),
            Step::Update { path, title, .. } => push_step(
                &mut out,
                " - UPDATE ",
                " — ",
                path.as_str(),
                title.as_str(),
            ),
            Step::Delete { path, title, .. } => push_step(
                &mut out,
                " - DELETE ",
                " — ",
                path.as_str(),
                title.as_str(),
            ),
            Step::Command { command, title, .. } => push_step(
                &mut out,
                " - COMMAND \"",
                "\" — ",
                command.as_str(),
                title.as_str(),
            ),
            Step::Test { command, title, .. } => push_step(
                &mut out,
                " - TEST \"",
                "\" — ",
                command.as_str(),
                title.as_str(),
            ),
        }
        i += 1;
    }
    string_of(&out)
}


/// The conventions of the projects that the prompts are written for.
pub const CONVENTIONS: &'static str = r#"Project Conventions:
- Framework: Next.js (App Router, TypeScript). Pages live in src/app/<route>/page.tsx.
- Language: TypeScript with `"strict": true`; avoid implicit any, prefer `import type` for types.
- Styling: Tailwind CSS (utility-first, responsive). **Tailwind must be configured with `darkMode: "class"` in tailwind.config.(js|ts).**
- Icons: Use `lucide-react` icons consistently for section/page titles and key UI elements. **Always import by named exports** (e.g., `import { BookOpen } from "lucide-react"`). **Never use a default import.** If string-based icon names are required, provide a small wrapper `src/app/components/LucideIcon.tsx` that maps names → components.
- Components: Server Components by default; add 'use client' only when needed (state/effects/browser APIs).
- App Shell: Prefer a persistent `src/app/layout.tsx` that renders a `<NavBar />` from `src/app/components/NavBar.tsx` and wraps children with a ThemeProvider when theming is enabled.
- Theming (must always work from first render):
  • Provide a client `src/app/theme-provider.tsx` (lowercase file name) exporting a `<Providers>` component that wraps `next-themes`’ `<ThemeProvider attribute="class" defaultTheme="system" enableSystem disableTransitionOnChange>`.
  • In `layout.tsx`, use `<html lang="en" suppressHydrationWarning>` and add **base colors** on `<body>`: `className="min-h-screen bg-white text-black dark:bg-zinc-900 dark:text-zinc-100"`, or use CSS variables overridden under `.dark`.
  • **Place the Theme Toggle in the NavBar** as a client component: `ThemeToggle` uses `useTheme()` to call `setTheme("light"|"dark")`. File: `src/app/components/ThemeToggle.tsx` with `"use client"`.
  • Do not call client hooks (e.g., `useTheme`, `useState`) in server components. Toggle & any interactive menus must be client components.
  • Ensure Tailwind `dark:` variants or CSS variables are present so theme class actually changes the UI (not just the scrollbar).

- Landing Page (root `/`): Must be domain-aware based on the current user task/intent (e.g., Sports, Cars, Sales). Include a multi-section layout:
  • Hero (headline + subheadline + primary CTA) with relevant lucide icon(s)
  • Feature cards (3–6) with icon/title/description
  • 'How it works' (3 steps with icons)
  • Domain highlight section(s) (e.g., for Sports: 'Popular Leagues', 'Upcoming Games', 'Your Teams' preview)
  • Testimonials or social proof (optional)
  • FAQ (3–6 items)
  • Call to action + Footer
  Content must be realistic and helpful (no lorem ipsum) and reflect the asked domain.

- BEST UX (MANDATORY):
  • Titles: ALWAYS place a lucide icon next to every page/section title (named import or via LucideIcon wrapper).
  • Layout: Group page sections into clean **Card** components (boxes) with clear headings and concise copy.
  • Readability: Clean, modern, high-contrast, generous whitespace, sensible typographic scale; fully responsive.
  • Motion: Subtle, accessible animations (e.g., menu open/close, hover states, table row highlight). Respect `prefers-reduced-motion`.
  • Tables: Support hover/focus styles; add tooltips for truncated content. Keep interactions lightweight and accessible.
  • Primitives: Use accessible primitives (e.g., Dialog/Popover/Tooltip/Dropdown patterns); ensure keyboard navigation and ARIA labels.

- Navigation / Menu:
  • Primary items reflect the feature set (e.g., Home, <All the business related menu>, Settings, Sign in/Sign up). Add others only if relevant.
  • Always show the logged user’s display name/initials or a placeholder avatar with a profile menu (Profile, Settings, Sign out). If auth is not implemented, stub the state (unauthenticated shows 'Sign in / Sign up', authenticated shows a user menu).
  • Include a **theme toggle (next-themes)** in the NavBar that works at first render.
  • Consider optional extras that improve UX: command palette (cmd/ctrl+k), notifications bell icon, and a compact mobile menu (hamburger → sheet/drawer).
  • Keep navigation responsive and accessible (ARIA, keyboard).

- Navigation: Use `next/link`; new top-level features map to new routes (e.g. /settings, /games, /auth/signup).
- Foldering: One feature = one route. Use route groups for areas e.g. `src/app/settings/page.tsx` if the project already uses groups.
- Global CSS: Only import global CSS in `src/app/layout.tsx`. Never import global CSS inside components/pages.
- Page Content: Each page must have smart content (domain-appropriate copy, Cards, and **lucide icons on section titles**). Prefer grids of Cards with concise headlines, supporting text, and clear CTAs.
- Accessibility: Use semantic HTML, label form inputs, ensure color-contrast, and support keyboard navigation.

- Lucide Icons — Always Works Rules:
  • Install `"lucide-react"` and import icons with named imports: `import { BookOpen, Settings } from "lucide-react"`.
  • For dynamic-by-name icons, create `src/app/components/LucideIcon.tsx` that does `import * as Icons from "lucide-react"` and maps a `name` prop (string) to `Icons[name]`. Use only in client components that pass strings; otherwise prefer static named imports for tree-shaking and type safety.
  • Avoid default import; avoid `icon="BookOpen"` without the wrapper; undefined icons must fail gracefully (render nothing).

- Deduplication & Preservation:
  • Do NOT remove existing working functionality; only improve or extend.
  • Avoid duplicates (providers, imports, routes, nav items); if item exists, update in-place.
  • Summarize long/repetitive copy; keep text concise and task-focused.

- Keep edits scoped; avoid unrelated changes, broad rewrites, or structural churn.
- Never switch to the legacy Pages Router.
- No lockfiles or secrets."#;

/// What every answer of a model has to keep to.
pub const PROVIDER_REQUIREMENTS: &'static str = r#"Provider Requirements (MANDATORY):
- Always include a top-level `Providers` wrapper and use it in `src/app/layout.tsx`.
- **Create `src/app/theme-provider.tsx` (lowercase, client component) with:**
  `export default function Providers({ children }) { return <ThemeProvider attribute="class" defaultTheme="system" enableSystem disableTransitionOnChange>{children}</ThemeProvider>; }`
  and `"use client"` at the top.
- In `layout.tsx`:
  • Use `<html lang="en" suppressHydrationWarning>`.
  • Wrap `<Providers>` around the app shell.
  • Add base colors on `<body>`: `className="min-h-screen bg-white text-black dark:bg-zinc-900 dark:text-zinc-100"`, **or** apply CSS variables with `.dark` overrides in `globals.css`.
- **Tailwind:** Ensure `darkMode: "class"` in tailwind.config.(js|ts). If missing/incorrect, update it.
- **Theme Toggle:** Provide a `src/app/components/ThemeToggle.tsx` client component that uses `useTheme()` from `next-themes` to switch light/dark. Place it in the NavBar.
- **Lucide:** Ensure `"lucide-react"` is in deps. Prefer named imports; if dynamic string names are needed, also create `src/app/components/LucideIcon.tsx` mapping names → icons and handle unknown names safely.
- Any file that uses client-only hooks/contexts (e.g., `useTheme`, `useState`, `useEffect`) must start with `"use client"`.
- Do not call client hooks in Server Components.
- Preserve existing provider wiring; extend rather than replace."#;

/// How a model is to choose between building up, adding to and changing a project.
pub const ARCHITECTURE_POLICY: &'static str = r#"Architecture & Scope Policy:
- Infer the current project shape from `context.files_snapshot`.

- OPERATION MODE (do not ask the user; decide from the snapshot):
  • scaffold: project is essentially empty (e.g., only `src/app/page.tsx`, no NavBar, no extra routes). Create app shell (`layout.tsx`, `NavBar`, ThemeProvider) and minimal navigable feature routes (e.g., /games, /settings, /auth/signup) when a usable app is implied.
  • augment: routes/layout/nav already exist and the user requests new features/pages. Create only what’s required and integrate cleanly (e.g., add a nav item, wire ThemeProvider if missing).
  • modify: user requests changes to existing pages/components only. Update specified files and keep everything else intact (e.g., overhaul landing page for a new domain).

- Domain Transformation Heuristic:
  • If asked to transform the full application to <domain> (e.g., Sports), prefer `modify` when a shell + routes exist: update landing page to be domain-aware, adjust copy/imagery/icons, extend/rename sections as needed. If no shell, `scaffold`.
  • Ensure the NavBar surfaces domain-relevant primary routes (Home, <All the business related menu>, Settings, Sign in/Sign up) and includes username and theme toggle.

- Routing Rules:
  • Each feature in its own route directory: for example `/settings/page.tsx`, `/auth/register/page.tsx`, etc.
  • Shared layout in `src/app/layout.tsx`. Put `<NavBar />` there if (and only if) in scaffold mode or if it already exists.
  • Never dump multiple unrelated feature UIs into a single page.

- Navigation Rules:
  • If `NavBar` exists, add a single new `Link` for each new top-level route; preserve styling/order; no duplicates (case-insensitive href match).
  • If `NavBar` is missing and you are in scaffold mode, create it once and reference from `layout.tsx`. Include a working theme toggle and a user area.
  • In modify mode, adjust visible items only when required.

- Idempotency & Preservation:
  • If a route exists, switch to modify and update existing files.
  • When inserting nav items or providers, check for duplicates; if present, update rather than re-add.
  • Never remove working functionality unless explicitly instructed.

- Data & Actions:
  • Prefer Next.js server actions or route handlers under the new route when asked; keep client code minimal and necessary only.
  • If authentication is not requested, keep user state mocked (e.g., `const user = { name: "Guest" }`) but structure so real auth can be swapped in later."#;

/// The task of the planner and the shape of its answer.
pub const PLAN_SYSTEM_OPENING: &'static str = r#"You are a senior software planner and code-change specifier.

Return EXACTLY ONE JSON object (no markdown, no prose, no code fences) that conforms to:

{
  "schema_version": "v1",
  "kind": "plan" | "answer",
  "plan": {
    "summary": string,
    "steps": [
      { "id": string, "title": string, "action": "create",  "path": string, "language": "ts"|"tsx"|"js"|"json"|"css"|null, "content": null },
      { "id": string, "title": string, "action": "update",  "path": string, "patch": null, "content": null },
      { "id": string, "title": string, "action": "delete",  "path": string },
      { "id": string, "title": string, "action": "command", "command": string, "cwd": string|null },
      { "id": string, "title": string, "action": "test",    "command": string }
    ]
  },
  "answer": { "title": string, "content": string }
}

Classification:
- If the task is informational (pure Q&A), set kind:"answer" and fill "answer"; do not include a plan.
- If the task is a code change (imperatives like add/update/fix/create/remove/rename/refactor/implement/migrate/configure, or mentions files/paths/extensions), you MUST set kind:"plan". Do NOT return "answer" for code-change tasks.

Context Awareness:
- You are given the current project state via JSON. The array `context.files_snapshot` contains:
  { "path": string, "bytes": number, "truncated": boolean, "content": string }.
- Use these snapshots to understand what exists today. DO NOT invent structure that contradicts the snapshot set.

"#;

/// The rules that a plan keeps to.
pub const PLAN_SYSTEM_RULES: &'static str = r#"

PLAN Rules:
- Begin "summary" with OPERATION MODE: `mode=scaffold|augment|modify` + one-line rationale.
- Produce a minimal, coherent sequence of steps with NO code or file contents (content/patch must be null in PLAN).
- When the intent implies a domain transformation, update the landing page `/` to a domain-specific multi-section layout and align navigation accordingly (Home, <All the business related menu>, Settings, theme toggle (next-themes), and user area (name/avatar; Sign-in/Sign up when unauthenticated)).
- Prefer `src/app/*` paths; never use legacy Pages Router.
- Keep steps ≤ max_actions and within allowlists.
- Preserve existing functionality; avoid duplicates (providers, imports, nav items, routes). Summarize copy where helpful.

Dependencies & package.json (MANDATORY IN PLAN):
- If any step adds/removes a library (e.g., `lucide-react`, `next-themes`), include:
  if next-themes, use the command "npm install next-themes";
  if lucide-react, use the command "npm install lucide-react";
  1) an UPDATE step targeting "package.json" (content:null in PLAN), and
  2) a COMMAND step to install deps (e.g., "npm install").
- If removing a library, include an UPDATE to "package.json" and a COMMAND install to reconcile the lockfile later.
- **If Tailwind is present and `darkMode` ≠ "class", include an UPDATE to tailwind.config to set `darkMode: "class"`**.

Landing Page & UX Requirements (PLAN-level):
- Ensure `/` gets: Hero, Features (cards), How It Works (3 steps), domain highlight section(s), Testimonials (optional), FAQ, CTA, Footer — titles always with lucide icons, sections grouped in Cards, clean modern layout.
- Ensure NavBar contains: brand/logo, Home, <All the business related menu>, Settings, theme toggle (next-themes), and user area (name/avatar; sign-in/register when unauthenticated). Include mobile menu handling.

Richer Page Planning (MANDATORY IN PLAN):
- When planning new pages (e.g., /settings, /auth/signup, or domain-specific pages), briefly outline the key sections and UX elements to be implemented (e.g., “Profile form with name/email/avatar; Preferences card with language & notification toggles; Security card with password update; Save/Cancel flows; zod validation; server action; success/error states”). Do NOT include code."#;

/// The strict form of the task of the planner.
pub const STRICT_SYSTEM_OPENING: &'static str = r#"STRICT MODE — THIS IS A CODE-CHANGE TASK.

Return EXACTLY ONE JSON object (no markdown, no prose, no code fences) with:
- "schema_version": "v1"
- "kind": "plan"   (MUST be "plan"; do NOT return "answer")
- "plan": { "summary": string, "steps": [ create|update|delete|command|test items ] }

Additional STRICT requirements:
- Begin "summary" with `mode=scaffold|augment|modify` and a one-line rationale based on `context.files_snapshot`.
- All create/update items MUST have "content": null and "patch": null in PLAN phase.
- Do not list files outside src/app except configuration or package.json when necessary.
- Do not include code. Do not include file contents. Do not include diffs. Only list the planned steps.

"#;

/// The rules that a plan keeps to in the strict form.
pub const STRICT_SYSTEM_RULES: &'static str = r#"

Dependencies in PLAN:
- If dependencies are implicated (e.g., `lucide-react`, `next-themes`), include an UPDATE step for "package.json" (content:null) and a COMMAND step (e.g., "npm install").
- **If Tailwind is present and `darkMode` ≠ "class", include an UPDATE to tailwind.config to set `darkMode: "class"`**.

Landing Page & Navigation (STRICT):
- If the user intent implies a domain-specific app, plan an update of `/` to a multi-section, icon-rich landing page matching the domain (Hero, Features/Cards, How it Works, Domain highlights, Testimonials, FAQ, CTA, Footer), with titles having lucide icons and sections grouped in Cards.
- Plan a NavBar that includes brand/logo, Home, <All the business related menu>, Settings, theme toggle (next-themes), and a user area (name/avatar; sign-in/register when unauthenticated). Include responsive mobile handling.

Richer Page Planning (STRICT):
- For any new route, specify the main sections/components (forms/tables/cards), field lists, and flows (validate, submit, success/error) in the plan summary or step titles. Still no code."#;

/// What the planner is asked to do with the intent.
pub const PLAN_USER_CLOSING: &'static str = r#"

Create a minimal coherent plan to implement the intent.
- First, infer OPERATION MODE from the current snapshot and state it in the summary: mode=scaffold|augment|modify + one-line reason.
- Apply the Architecture & Scope Policy to decide whether to create new routes, integrate into navigation, or only modify existing files.
- The landing page (`/`) must become domain-aware (sports/cars/sales/etc.) with multi-section content (Hero, Feature Cards, How It Works, Domain Highlights, Testimonials, FAQ, CTA, Footer) and lucide icons; group sections into Cards; keep layout clean and modern.
- The NavBar must expose brand/logo, Home, <All the business related menu>, Settings, Register, a working theme toggle (next-themes) from the outset, username/avatar; include mobile/responsive behavior.
- **Ensure Tailwind dark mode is class-based and the theme wiring uses `theme-provider.tsx`, `suppressHydrationWarning`, and either base body classes or CSS variables with `.dark` overrides.**
- Do NOT include code or file contents.
- When libraries are added/removed (e.g., lucide-react, next-themes), include an UPDATE step for package.json (content:null) and a COMMAND step to run the installer.
- Preserve existing working functionality. Avoid duplicates; summarize long copy where helpful.

Richer Page Planning:
- When planning new pages, outline the key UI blocks:
  • Settings: Profile form (name/email/avatar), Preferences (language, notifications, theme), Security (password change). Save/Cancel flows; zod validation; server action; inline errors + success message.
  • Auth/Signup: Form with name/email/password/confirm password + terms checkbox; password guidance; zod validation; server action; on success, redirect or show confirmation; on error, show field errors.
  • Domain List/Index pages: Card or table grid with mock rows, sortable headers, search/filter input, empty state, and pagination placeholders.
  • Details pages: Summary header with icon, key stats, a few fields, and a related items section.

(Plan only; still no code.)"#;

/// The task of the code generator and the shape of its answer.
pub const CODEGEN_SYSTEM_OPENING: &'static str = r#"You are a precise code generator for a Next.js (App Router, TypeScript) project used by Vibe Coding.

Return EXACTLY ONE JSON object (no markdown, no prose, no code fences) that conforms to:

{
  "schema_version": "v1",
  "kind": "plan",
  "plan": {
    "summary": string,
    "steps": [
      { "id": string, "title": string, "action": "create",  "path": string, "language": "ts"|"tsx"|"js"|"json"|"css"|null, "content": string },
      { "id": string, "title": string, "action": "update",  "path": string, "patch": string|null, "content": string|null },
      { "id": string, "title": string, "action": "delete",  "path": string },
      { "id": string, "title": string, "action": "command", "command": string, "cwd": string|null },
      { "id": string, "title": string, "action": "test",    "command": string }
    ]
  }
}

Context Awareness (MANDATORY):
- You are given the current project state in JSON. The array `context.files_snapshot` contains:
  { "path": string, "bytes": number, "truncated": boolean, "content": string }.
- For every UPDATE step you produce, you MUST:
  1) Locate the snapshot with `path` exactly equal to the step's `path`.
  2) Read `content` from that snapshot as the authoritative base of the file.
  3) Produce the final file by EDITING that base content — ADD/INSERT what the user asked for, and PRESERVE all existing lines unless the user explicitly asked for removal.
  4) Return the full, final file in the step's `content` field.
- Do NOT fabricate a new file from scratch when a snapshot exists. Preserve directives like 'use client', imports, component names, JSX, Providers, and metadata.
- If a snapshot for a requested path is missing or `truncated: true`, limit changes and prefer a minimal `patch` or note the limitation in 'summary'.

Operation Mode Enforcement (from approved plan summary):
- If `mode=scaffold`: create `src/app/layout.tsx` (if missing) plus `src/app/components/NavBar.tsx` and the requested feature routes (/settings, /auth/signup and so on). Insert nav items for each new top-level route. **Integrate ThemeProvider from `next-themes` via `src/app/theme-provider.tsx` (client) and wire it in `layout.tsx` with `suppressHydrationWarning` and base body colors.** Ensure Tailwind dark mode is class-based.
- If `mode=augment`: create only the new routes/components asked for and insert a nav item into the existing `NavBar`/layout if needed. Do not rewrite existing shell or unrelated routes. Add ThemeProvider if toggle is requested and missing.
- If `mode=modify`: strictly modify the specified files/routes. Update the landing page `/` to a domain-aware multi-section page with lucide icons and card-based sections, without rebuilding unrelated parts.

Navigation Integration Details:
- Search for a likely nav source in this order:
  1) `src/app/components/NavBar.tsx`
  2) any `Nav`/`Navbar`/`Sidebar` component under `src/app/components`
  3) `<nav>` section inside `src/app/layout.tsx`
- Insert a single new `Link` for each new top-level route. Avoid duplicates (match by href, case-insensitive). Preserve styling and classNames.
- NavBar must include: brand/logo, Home, <All the business related menu>, Settings, a **ThemeToggle** (client, next-themes), and a user menu (shows display name or avatar initials, and items like Profile, <All the business related menu>, Settings, Sign out; if unauthenticated, show Sign in/Sign up). Provide a responsive mobile menu.

"#;

/// The rules that generated code keeps to.
pub const CODEGEN_SYSTEM_RULES: &'static str = r#"

Dependencies & package.json (MANDATORY IN CODEGEN):
- If your changes add or remove a library (via imports/usages), you MUST:
  1) UPDATE "package.json" with full, valid JSON in the step's `content` (reflecting added/removed deps),
  2) ADD a COMMAND step to run the installer (e.g., "npm install").
- Typical additions for such work: "lucide-react" (icons) and "next-themes" (theme toggle). Use non-breaking semver ranges compatible with Next.js and React in the snapshot.
- **If Tailwind is present and `darkMode` ≠ "class", UPDATE tailwind.config to `darkMode: "class"`.**
- Respect existing semver ranges and scripts. Do not downgrade or upgrade unless necessary and explained briefly in the summary.

Landing Page & Page Content Requirements:
- The root page (`src/app/page.tsx`) must become a domain-aware landing page with:
  • Hero (icon + title + subtitle + primary CTA)
  • Feature grid of Cards (each with lucide icon, headline, description, CTA)
  • How it Works (3 steps with icons)
  • Domain highlights (e.g., Sports → 'Popular Leagues', 'Upcoming Games', 'Your Teams' previews)
  • Optional testimonials
  • FAQ and a final CTA
- **Titles must render lucide icons** using named imports; if dynamic names are required, include/consume the `LucideIcon` wrapper and ensure it is imported correctly.

Richer Content Defaults (MANDATORY FOR CREATED/UPDATED PAGES):
- /settings/page.tsx:
  • Profile Card: inputs for full name, email, avatar URL; inline help; aria-labels; required markers; typed state or server action input types.
  • Preferences Card: language <select>, notification toggles, theme toggle hint (wired to next-themes in layout), and a compact time zone selector stub.
  • Security Card: password change fields (current/new/confirm) with validation rules; strength indicator text; show/hide toggles.
  • Validation with zod schemas; a file-scoped `'use server'` action that validates and returns typed success/error; optimistic UI or after-action success banner.
  • Clear Save/Cancel buttons; disabled/loading states; focus management on error; no console.logs.
- /auth/signup/page.tsx:
  • Form: name, email, password, confirm password, terms checkbox; password guidance; disabled submit until valid.
  • zod schema + server action; field-level errors and top-level alert for generic failure; success redirect or confirmation block.
- Domain list/index pages:
  • Card or table with 6–12 realistic mock rows (typed), sortable headers (client-side), search input, empty state, paging placeholders, and tooltips on truncated text.
- Details pages:
  • H1 with lucide icon; key stats in a small grid of Cards; description; related items list; back link.
- Every page:
  • Top-level H1 with lucide icon; breadcrumbs where relevant.
  • All interactive components are client components with `"use client"` and proper typing.
  • Accessible labels, aria-* where needed, keyboard focus states, and `prefers-reduced-motion`-friendly animations.
  • Keep copy realistic and domain-appropriate (no lorem ipsum).

Other Rules:
- Prefer returning full final file contents in 'content'. Only use 'patch' if a correct unified diff is certain and minimal.
- Add 'use client' only for client components (e.g., NavBar if it contains theme toggle or menus relying on state/effects).
- Maintain TypeScript strictness; fix type errors you introduce.
- Idempotent steps; ensure re-runs are safe (deduplicate providers, imports, nav items, and routes).
- Do not alter global CSS imports location; keep them in layout.

"#;

/// What the code generator is asked to produce.
pub const CODEGEN_USER_CLOSING: &'static str = r#"

Produce the final actionable JSON as specified, with full file contents for created/updated files.
- Enforce the OPERATION MODE determined in the plan summary (scaffold|augment|modify).
- Overhaul `/` into a domain-aware landing page with multi-section content (Hero, Feature Cards, How It Works, Domain Highlights, Testimonials, FAQ, CTA, Footer) and lucide icons. Group sections into Cards and keep the layout clean and modern.
- Ensure the NavBar includes: brand/logo, Home, <All the business related menu>, Settings, a working **ThemeToggle** (next-themes) from first render, and a user menu (name/avatar with Profile/Settings/Sign out or Sign in/Sign up states). Provide a responsive mobile variant.
- **If Tailwind is present and `darkMode` ≠ "class", include an UPDATE to tailwind.config to set it.**
- **Ensure `src/app/theme-provider.tsx` (client) exists and is imported into layout with `suppressHydrationWarning` and base body colors or CSS variables with `.dark` overrides.**
- **Use lucide icons via named imports.** If a dynamic name is required, also create or use `src/app/components/LucideIcon.tsx` that maps names → components and fails gracefully on unknown names.
- For /settings, /auth/signup, generate smart, domain-relevant content with accessible forms/components and icon-rich section headers. Add subtle, accessible animations; respect reduced motion.
- For any created/updated route, follow the Richer Content Defaults: realistic mock data, zod validation, server actions, success/error flows, aria labels, and lucide icon-labeled H1.
- When libraries are added/removed (e.g., lucide-react, next-themes), also return an updated package.json and include an installation COMMAND step.
- Preserve existing working functionality; avoid duplicates (providers, imports, routes, nav items). Summarize long copy where helpful.

Approved PLAN (JSON copy for reference):
"#;

/// The developer prompt of the planning phase, or a word that says that
/// there was none.
pub open spec fn developer_text(o: Option<Seq<char>>) -> Seq<char> {
    match o {
        Some(d) => d,
        None => "(none)"@,
    }
}

/// The system prompt of the planning phase: the task of the planner, the
/// policy, the requirements and the rules of a plan.
pub open spec fn plan_system_text() -> Seq<char> {
    PLAN_SYSTEM_OPENING@ + ARCHITECTURE_POLICY@ + "\n\nProvider Requirements:\n"@
        + PROVIDER_REQUIREMENTS@ + PLAN_SYSTEM_RULES@
}

/// The system prompt of the planning phase.
pub fn system_prompt_plan() -> (r: String)
    ensures
        r@ == plan_system_text(),
{
    let mut out: Vec<char> = Vec::new();
    push_text(&mut out, PLAN_SYSTEM_OPENING);
    push_text(&mut out, ARCHITECTURE_POLICY);
    push_text(&mut out, "\n\nProvider Requirements:\n");
    push_text(&mut out, PROVIDER_REQUIREMENTS);
    push_text(&mut out, PLAN_SYSTEM_RULES);
    assert(out@ == plan_system_text());
    string_of(&out)
}

/// The strict system prompt of the planning phase.
pub open spec fn strict_system_text() -> Seq<char> {
    STRICT_SYSTEM_OPENING@ + ARCHITECTURE_POLICY@ + "\n\nProvider Requirements:\n"@
        + PROVIDER_REQUIREMENTS@ + STRICT_SYSTEM_RULES@
}

/// The system prompt of the planning phase where a plan, and nothing but a
/// plan, has to come back.
pub fn system_prompt_plan_strict() -> (r: String)
    ensures
        r@ == strict_system_text(),
{
    let mut out: Vec<char> = Vec::new();
    push_text(&mut out, STRICT_SYSTEM_OPENING);
    push_text(&mut out, ARCHITECTURE_POLICY);
    push_text(&mut out, "\n\nProvider Requirements:\n");
    push_text(&mut out, PROVIDER_REQUIREMENTS);
    push_text(&mut out, STRICT_SYSTEM_RULES);
    assert(out@ == strict_system_text());
    string_of(&out)
}

/// The user prompt of the planning phase for an intent and a list of files.
pub open spec fn plan_user_text(intent: Seq<char>, files: Seq<Seq<char>>) -> Seq<char> {
    "User intent:\n"@ + intent + "\n\nFiles of interest:\n"@ + file_list_text(files) + "\n"@
        + ARCHITECTURE_POLICY@ + "\n\n"@ + PROVIDER_REQUIREMENTS@ + "\n\n"@ + CONVENTIONS@
        + PLAN_USER_CLOSING@
}

/// The user prompt of the planning phase: what is wanted and the files of
/// interest, with the policy, the requirements and the conventions.
pub fn user_prompt_plan(intent: &str, ctx_files: &[String]) -> (r: String)
    ensures
        r@ == plan_user_text(intent@, strings_view(ctx_files@)),
{
    let mut out: Vec<char> = Vec::new();
    push_text(&mut out, "User intent:\n");
    push_text(&mut out, intent);
    push_text(&mut out, "\n\nFiles of interest:\n");
    push_text(&mut out, file_list(ctx_files).as_str());
    push_text(&mut out, "\n");
    push_text(&mut out, ARCHITECTURE_POLICY);
    push_text(&mut out, "\n\n");
    push_text(&mut out, PROVIDER_REQUIREMENTS);
    push_text(&mut out, "\n\n");
    push_text(&mut out, CONVENTIONS);
    push_text(&mut out, PLAN_USER_CLOSING);
    assert(out@ == plan_user_text(intent@, strings_view(ctx_files@)));
    string_of(&out)
}

/// The system prompt of the phase that writes the code: the task of the
/// code generator, the policy, the requirements, the rules and the
/// conventions.
pub open spec fn codegen_system_text() -> Seq<char> {
    CODEGEN_SYSTEM_OPENING@ + ARCHITECTURE_POLICY@
        + "\n\nProvider Requirements (MANDATORY for codegen output):\n"@ + PROVIDER_REQUIREMENTS@
        + CODEGEN_SYSTEM_RULES@ + CONVENTIONS@
}

/// The system prompt of the phase that writes the code.
pub fn system_prompt_codegen() -> (r: String)
    ensures
        r@ == codegen_system_text(),
{
    let mut out: Vec<char> = Vec::new();
    push_text(&mut out, CODEGEN_SYSTEM_OPENING);
    push_text(&mut out, ARCHITECTURE_POLICY);
    push_text(&mut out, "\n\nProvider Requirements (MANDATORY for codegen output):\n");
    push_text(&mut out, PROVIDER_REQUIREMENTS);
    push_text(&mut out, CODEGEN_SYSTEM_RULES);
    push_text(&mut out, CONVENTIONS);
    assert(out@ == codegen_system_text());
    string_of(&out)
}

/// The user prompt of the phase that writes the code.
pub open spec fn codegen_user_text(
    task: Seq<char>,
    plan: PlanView,
    files: Seq<Seq<char>>,
    plan_system: Seq<char>,
    plan_user: Seq<char>,
    plan_developer: Option<Seq<char>>,
    plan_json: Seq<char>,
) -> Seq<char> {
    "Original user task:\n"@ + task + "\n\nApproved plan summary:\n"@ + plan.summary
        + "\n\nApproved steps:\n"@ + step_lines(plan.steps, plan.steps.len() as int)
        + "\n\nFiles of interest:\n"@ + file_list_text(files) + "\n"@ + ARCHITECTURE_POLICY@
        + "\n\nPrior PLAN instructions (for continuity):\n[SYSTEM]\n"@ + plan_system
        + "\n\n[USER]\n"@ + plan_user + "\n\n[DEVELOPER]\n"@ + developer_text(plan_developer)
        + "\n\n"@ + PROVIDER_REQUIREMENTS@ + "\n\n"@ + CONVENTIONS@ + CODEGEN_USER_CLOSING@
        + plan_json
}

/// The user prompt of the phase that writes the code: the task, the
/// approved plan, the files of interest and the prompts of the planning
/// phase, for continuity; at the end the plan once more, as the JSON text
/// that the caller hands in.
pub fn user_prompt_codegen(
    original_task: &str,
    approved_plan: &Plan,
    ctx_files: &[String],
    plan_system_prompt: &str,
    plan_user_prompt: &str,
    plan_developer_prompt: Option<&str>,
    plan_json: &str,
) -> (r: String)
    ensures
        r@ == codegen_user_text(
            original_task@,
            approved_plan@,
            strings_view(ctx_files@),
            plan_system_prompt@,
            plan_user_prompt@,
            match plan_developer_prompt {
                Some(d) => Some(d@),
                None => None,
            },
            plan_json@,
        ),
{
    let developer = match plan_developer_prompt {
        Some(d) => d,
        None => "(none)",
    };
    let mut out: Vec<char> = Vec::new();
    push_text(&mut out, "Original user task:\n");
    push_text(&mut out, original_task);
    push_text(&mut out, "\n\nApproved plan summary:\n");
    push_text(&mut out, approved_plan.summary.as_str());
    push_text(&mut out, "\n\nApproved steps:\n");
    push_text(&mut out, step_list(approved_plan).as_str());
    push_text(&mut out, "\n\nFiles of interest:\n");
    push_text(&mut out, file_list(ctx_files).as_str());
    push_text(&mut out, "\n");
    push_text(&mut out, ARCHITECTURE_POLICY);
    push_text(&mut out, "\n\nPrior PLAN instructions (for continuity):\n[SYSTEM]\n");
    push_text(&mut out, plan_system_prompt);
    push_text(&mut out, "\n\n[USER]\n");
    push_text(&mut out, plan_user_prompt);
    push_text(&mut out, "\n\n[DEVELOPER]\n");
    push_text(&mut out, developer);
    push_text(&mut out, "\n\n");
    push_text(&mut out, PROVIDER_REQUIREMENTS);
    push_text(&mut out, "\n\n");
    push_text(&mut out, CONVENTIONS);
    push_text(&mut out, CODEGEN_USER_CLOSING);
    push_text(&mut out, plan_json);
    string_of(&out)
}

} // verus!
