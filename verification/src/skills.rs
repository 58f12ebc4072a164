//! Guidance on the resources at the centre of the way to SOC 2: what each is,
//! what part it plays, and what it is used with.

use crate::json::opt_str;
use crate::text::same;
use vstd::prelude::*;
use vstd::string::*;

verus! {

pub const ACCOUNTS: &'static str = "# accounts

## What it is

The tenant — one organization's entire Klaay workspace. Every other resource
in this list (controls, policies, vendors, users, risk scenarios) is scoped
to one account. A person (`users`) can belong to more than one account, each
via its own `account_users` record.

## Role in the SOC 2 journey

`GET /accounts/:id` exposes `meta.getting_started` — a set of coarse
onboarding flags (`company_profile_complete`, `logo_uploaded`,
`idp_connected`, `team_configured`, `vendors_added`) that summarize setup
progress at a glance, separate from the detailed area-by-area breakdown in
`compliance_stats`. `meta.seeded` indicates whether every adopted
framework's baseline has finished seeding — useful to check before assuming
`selected_controls`/`framework_selections` data is complete right after
signup.

## Commonly used with

- **`framework_selections`** — which frameworks this account is pursuing.
- **`compliance_stats`** — the detailed readiness breakdown for this
  account.
- **`account_information_answers`** — this account's own profile Q&A.
- A logged-in user with multiple accounts sees this list at login time
  (`GET /accounts` resolves to every account the current user belongs to,
  independent of which one is currently active) — this is how the `klaay`
  CLI itself resolves which account to authenticate against when a login
  is ambiguous.
";

pub const ACCOUNT_INFORMATION_ANSWERS: &'static str = "# account_information_answers

## What it is

An answer to a company-profile question (e.g. basic organizational facts,
\"do you have a written security policy\") for this account.

## Role in the SOC 2 journey

The \"quick win\" area: most answers are auto-crawled during onboarding
already, and just need a human to confirm them. `manual` answer source means
a user actually reviewed and confirmed it — that's when it counts as
fulfilled, not merely having a crawled value present. Because most of the
work is already done by the time you look at this area, it's the fastest way
to get an area to 100% and build early momentum in the compliance journey.

This area is mostly handled through the onboarding workstream (AI walks the
user through reviewing/confirming each answer) rather than direct,
one-by-one API calls.

## Commonly used with

- **`account_information_questions`** — the question catalog these answers
  respond to.
- **`workstreams`** (`topic: \"onboarding\"`) — the primary way this area
  actually gets worked.
";

pub const ACCOUNT_USERS: &'static str = "# account_users

## What it is

The membership record joining a `user` (a person) to a specific `account` —
roles (`admin`/`member`/`auditor`/etc.), `employment_date`,
`termination_date`, manager, and per-account compliance state. This is
**different from `users`**: a person can belong to several accounts, each
with its own `account_users` record and its own roles/status. Authorization
(`pundit_user`) is based on this resource, not `users` directly.

## Role in the SOC 2 journey

This backs the `employees` area of `compliance_stats`. An employee is
fulfilled when Klaayguard is installed on their device(s) AND all mandatory
policy acknowledgements are complete. This area is mostly **organizational,
not API-driven**: Klaayguard installation is an IT rollout action, and
acknowledgement assignments are created automatically the moment a
`policy_versions` is published — there's no direct API call that \"completes\"
an employee. The main lever is publishing policies and then monitoring
`compliance_stats` as acknowledgements land.

## Commonly used with

- **`users`** — the underlying person record.
- **`teams`** / `team_memberships` — org structure (linking requires the
  `account_user` id, not the `user` id).
- **`devices`** — Klaayguard/asset status for this person.
- **`tasks`** / **`workstreams`** — can be attached directly as the subject.
";

pub const COLLECTED_EVIDENCE_SELECTED_CONTROLS: &'static str = "# collected_evidence_selected_controls

## What it is

The join record linking one piece of evidence (`collected_evidences`) to one
control (`selected_controls`). Evidence and controls are many-to-many, and
this join is the *only* way to connect them — neither side has a direct
relationship to the other.

This is an STI (single-table-inheritance) resource. When creating a link
yourself, use the **`collected_evidence_selected_control_users`** subtype
(a human-initiated link). The other subtypes —
`collected_evidence_selected_control_ais` and `..._mechanicals` — represent
AI- or system-initiated links and aren't ones you'd normally create directly.

## Role in the SOC 2 journey

Step one of the evidence loop that gets a control to `fulfilled`:

1. **Link** evidence to the control (this resource).
2. **Run a check** — `POST /evidence_checks`.
3. **Poll** — `GET /evidence_checks?filter[selected_control_id_eq]=<id>`.
4. Passed → the control is fulfilled. Failed → read
   `meta.justification`, attach different evidence, repeat.

## Commonly used with

- **`collected_evidences`** — the evidence being linked; create this first
  if it doesn't already exist.
- **`selected_controls`** — the control being satisfied.
- **`evidence_checks`** — the next step after linking; a check only has
  something to evaluate once at least one link exists.
";

pub const COLLECTED_EVIDENCES: &'static str = "# collected_evidences

## What it is

A single piece of evidence — either **manual** (a file or URL a human
attached) or automated (extracted via an integration). `attributes.manual`
is derived automatically server-side from `files.attached? || url.present?`
— you cannot set it directly, just attach a file or set a URL.

## Role in the SOC 2 journey

This is the raw material `evidence_checks` evaluates. On its own, creating a
`collected_evidences` record does nothing for compliance status — it has to
be linked to a control (see below) and then checked.

Attaching a file drives the real ActiveStorage direct-upload flow, not a
plain multipart POST — the `klaay` CLI's `--file <relationship>=<path>` flag
on `create`/`update` handles this for you. `files` and `url` are mutually
exclusive; a record has one or the other, never both.

## Commonly used with

- **`collected_evidence_selected_control_users`** — the only way to connect
  evidence to a control; `collected_evidences` has no direct relationship to
  `selected_controls`. This is a separate `create` call after the evidence
  itself exists.
- **`evidence_checks`** — what actually consumes the evidence to decide if a
  control is satisfied.
- `meta.possible_file_formats` on the response lists the accepted content
  types for this account (attachment limits are per-attachment, not
  universal — a different resource's attachment may allow a different set).
";

pub const COMPLIANCE_STATS: &'static str = "# compliance_stats

## What it is

The account-wide readiness snapshot: one entry per area (`employees`,
`account_information`, `controls`, `risk_scenarios`, `policies`, `vendors`,
`devices`), each carrying a `tally` of states against a `total`. Admin-only.

## Role in the SOC 2 journey

**Always start here.** Before working any specific area, assess the current
posture with this endpoint rather than guessing where to focus — for each
area, `fulfilled / total` gives the completion ratio, and areas with a high
`failing` count relative to `total` need the most attention.

Recommended working order once you've assessed posture: account_information
(quick win) → policies (start early for acknowledgement lead time) →
controls (the main framework driver, most effort) → vendors (parallel to
controls) → risk scenarios (after controls exist) → employees/devices
(mostly organizational, follow from Klaayguard rollout and policy
publishing).

Compliance is not a one-time achievement — controls can regress if a
re-run evidence check fails, new employees need onboarding, new vendors need
assessment. Re-check this endpoint regularly, not just once at the start.

The `klaay status` command is a formatted convenience wrapper around exactly
this endpoint (computing the same overall % the \"Road to Readiness\" widget
shows); `klaay call GET /compliance_stats` gets you the raw response if you
need to compute something different from it yourself.

## Commonly used with

- **`framework_selections`** — the framework-level view (`meta.progress`)
  of the same underlying completion data.
- Effectively every other resource in this list — this is the dashboard
  over all of them, not a resource with its own workflow.
";

pub const CONVERSATIONS: &'static str = "# conversations

## What it is

The message thread backing a `workstream` — a `workstream` has exactly one
conversation (`has_one :conversation, as: :subject`).

## Role in the SOC 2 journey

`GET /conversations/:id?include=messages` is the reliable way to read an
AI exchange for any compliance subject — messages are ordered by
`meta.seq`. Whether you got here via a workstream's
`relationships.conversation.data.id` or fetched it directly, this is where
the actual content of an AI-assisted compliance conversation lives.

## Commonly used with

- **`workstreams`** — the parent; conversations aren't created directly,
  they come into existence alongside a workstream.
- **`user_messages`** / **`ai_messages`** — the messages in this thread
  (both STI subtypes of `messages`); send with the `conversation`
  relationship, poll by re-fetching this resource.
";

pub const DEVICES: &'static str = "# devices

## What it is

An employee's endpoint (laptop, phone, server, etc.) tracked for asset
inventory and posture (encryption, patch status), primarily fed by the
Klaayguard desktop agent's data collection.

## Role in the SOC 2 journey

Fulfilled when the device is not a laptop (servers, phones, etc. auto-pass —
no action needed), OR it is a laptop that has received Klaayguard-reported
data. This area resolves naturally as Klaayguard is rolled out to the
org — there isn't much direct API work here beyond monitoring
`compliance_stats`' `devices` area as installs land.

## Commonly used with

- **`account_users`** — whose device this is.
- Klaayguard's own data-collection endpoints live under a separate
  `klaayguard` namespace, not this JSON:API resource surface.
";

pub const EVIDENCE_CHECKS: &'static str = "# evidence_checks

## What it is

An AI-run evaluation of whether the evidence currently attached to a control
actually satisfies it.

## Role in the SOC 2 journey

This is the mechanism that flips a control to `fulfilled` in
`compliance_stats` — nothing else does. `state: \"implemented\"` on a control
is not enough by itself.

`POST /evidence_checks` (with the `selected_control` relationship) returns
`202 Accepted` — it runs asynchronously. Poll with
`GET /evidence_checks?filter[selected_control_id_eq]=<id>` until a result
appears. The result's `meta` carries `passed`, `justification`,
`confidence_score`, `checked_at`, and `since`.

If a check **fails** on a control that was `implemented`, the control is
automatically demoted to `misconfigured` — recovery is: fix the underlying
issue, wait for `meta.implementation_checks_passing` to go true again,
manually advance the state back through `ready` → `implemented`, then re-run
the check.

## Commonly used with

- **`selected_controls`** — what's being checked; the `selected_control`
  relationship is required on create.
- **`collected_evidences`** / **`collected_evidence_selected_control_users`**
  — evidence must already be attached before a check has anything to
  evaluate; if a check fails, read `meta.justification`, attach better
  evidence, and re-run.
";

pub const FRAMEWORK_SELECTIONS: &'static str = "# framework_selections

## What it is

Records which compliance framework(s) — SOC 2, ISO 27001, etc. — this
account has adopted.

## Role in the SOC 2 journey

`GET /framework_selections?include=framework` is the framework-level
progress signal: the included framework's `meta.progress` is a float
(`0.75` = 75% complete), computed from how control fulfillment maps to that
framework's criteria coverage. This is the single number that answers \"are
we done yet\" for a given framework — check it alongside `compliance_stats`
(which gives area-level detail behind the same underlying data).

## Commonly used with

- **`frameworks`** — the framework catalog (SOC 2, ISO 27001, etc.) this
  selection points at; always `include=framework` to get `meta.progress`.
- **`selected_controls`** + **`framework_criteria`** — what actually drives
  the progress number; framework progress moves only when controls mapped
  to that framework's criteria become fulfilled.
- **`compliance_stats`** — the area-by-area breakdown behind the same
  overall readiness this resource summarizes at the framework level.
";

pub const INCIDENTS: &'static str = "# incidents

## What it is

A security incident record — `severity` (`low`/`medium`/`high`/`critical`)
and `status` (`draft`/`completed`), both in `attributes`.

## Role in the SOC 2 journey

Distinct from the other areas in one important way: **creating an incident
automatically kicks off an AI-guided incident-response `workstream`**
asynchronously — you don't need to separately create one like you would for
a control or vendor. Incident response is reactive rather than a
progressively-worked \"area\" like controls or policies; there's no ongoing
fulfilled/failing tally for it the way there is for the other
`compliance_stats` areas.

## Commonly used with

- **`workstreams`** — auto-created on incident creation; fetch it (or its
  conversation) to see the AI's guided response.
";

pub const MESSAGES: &'static str = "# messages

## What it is

One message in a `conversation`. This is an STI base resource — always
create the specific subtype: **`user_messages`** (what you send) or
**`ai_messages`** (what comes back); **`summary_messages`** are
auto-generated recaps, not something you create.

## Role in the SOC 2 journey

The unit of exchange in every AI-assisted workflow (control troubleshooting,
policy drafting, vendor review, incident response). Sending is
straightforward — `POST /user_messages` with `content` and the
`conversation` relationship, which returns `meta.seq` and `meta.state`.
Receiving is async: an `ai_messages` reply moves through
`meta.state`: `pending` → `streaming` → `completed` (or `failed`). The
reliable way to see it land is to **poll the conversation**
(`GET /conversations/:id?include=messages`), not to poll the message
directly. A failed AI message can be retried with
`PATCH /ai_messages/:id/retry`.

## Commonly used with

- **`conversations`** — the thread this message belongs to.
- **`workstreams`** — the compliance subject this whole exchange is about.
";

pub const POLICIES: &'static str = "# policies

## What it is

A governance policy document (e.g. \"Access Control Policy\"), usually
instantiated from a `policy_template`. Related to `frameworks`/
`framework_criteria` directly (via `policy_frameworks`/`policy_criteria`) —
publishing the right policies is itself part of framework coverage, not just
a prerequisite for employee acknowledgement.

## Role in the SOC 2 journey

Fulfilled when at least one **published** `policy_version` exists.

**Start this area early — earlier than its complexity would suggest.** Content
drafting is fast (a `workstream` with `topic: \"policy\"` gets the AI to draft
from the template in minutes), but the policy isn't `publishable`
(`meta.publishable`) until every `{[REPLACE:...]}` (needs a specific company
fact) and `{[CLARIFY:...]}` (needs a decision) placeholder is resolved, and
content isn't empty. Once published, **employee acknowledgement is the
single longest lead time in the entire compliance program** — it can take
days to weeks for every employee to individually acknowledge. Kicking off
policies first lets that clock run in the background while you focus on
controls.

## Commonly used with

- **`policy_versions`** — the actual publish step; check
  `meta.publishable` on the policy before creating one.
- **`workstreams`** (`topic: \"policy\"`) — AI drafting and placeholder
  resolution.
- **`framework_criteria`** / **`frameworks`** — what this policy counts
  toward directly.
- Employee acknowledgement itself isn't a directly-called resource here —
  it's tracked via the `employees` area of `compliance_stats`, triggered
  automatically the moment a `policy_versions` is published.
";

pub const POLICY_VERSIONS: &'static str = "# policy_versions

## What it is

An immutable, published snapshot of a policy's content —
`meta.version` (integer) and `meta.html` (rendered content).

## Role in the SOC 2 journey

Creating one is the action that actually **triggers employee acknowledgement
assignments** — nothing else does. It requires the parent policy to already
have real, resolved content (see `policies` — `meta.publishable` must be
true first, or the create will fail).

Because acknowledgement is the longest lead time in the whole program,
publishing early (even a first draft version) starts that clock sooner.

## Commonly used with

- **`policies`** — the parent; you always create a version against an
  existing policy via the `policy` relationship.
- Employee acknowledgement progress shows up in `compliance_stats`'
  `employees`/`policies` areas, not as a directly queryable relationship on
  this resource.
";

pub const SELECTED_CONTROLS: &'static str = "# selected_controls

## What it is

A control the account has actively adopted, mapped to one or more
`framework_criteria` (SOC 2, ISO 27001, etc.) through `selected_control_criteria`.
This is distinct from `control_templates` (the library a control was
instantiated from) — `selected_controls` are the account's own copies.

## Role in the SOC 2 journey

This is **the primary driver of framework progress** and the most complex,
highest-effort area of the whole compliance program. Two things track control
health, and they are not the same:

- **`attributes.state`** — the control's own lifecycle: `pending` → `ready` →
  `implemented`, or `misconfigured`. `pending → ready` requires
  `meta.implementation_checks_passing == true`; `ready → implemented` is a
  manual `PATCH` once the team confirms it's operational; `implemented →
  misconfigured` happens automatically the moment an evidence check fails.
- **`fulfilled` in `compliance_stats`** — depends on evidence, not state. A
  control can sit at `state: \"implemented\"` and still show as `failing` in
  compliance_stats if no evidence check has ever run, or the latest one
  failed. Fulfilled requires at least one evidence check AND the most recent
  one having passed.

The per-control loop: check `meta.implementation_checks_passing` → advance
state → attach evidence → run a check → poll → fulfilled (or fix and retry).

## Commonly used with

- **`collected_evidence_selected_control_users`** — the join needed to attach
  evidence; there is no direct relationship from a control to evidence.
- **`evidence_checks`** — `POST` (202, async) evaluates whether attached
  evidence satisfies this control; poll with
  `filter[selected_control_id_eq]=<id>`.
- **`collected_evidences`** — the evidence records themselves.
- **`framework_criteria`** / **`frameworks`** — what this control actually
  counts toward; `include=frameworks` shows it.
- **`owners`** (users) — who's responsible for this control.
- **`workstreams`** (`topic: \"selected_control\"`) — AI-guided help explaining
  what the control requires, suggesting evidence, or troubleshooting a failed
  check.
";

pub const SELECTED_RISK_SCENARIOS: &'static str = "# selected_risk_scenarios

## What it is

An entry in the risk register — one specific way the organization could be
harmed, usually instantiated from a `risk_scenario_template`.

## Role in the SOC 2 journey

Deliberately sequenced **after** controls: fulfilled requires at least one
related control AND being \"treated,\" so working the control inventory first
is what makes this area tractable.

A scenario stays in `draft` state until **all three** of `treatment`
(`accept`/`mitigate`/`transfer`/`avoid`), `impact` (1–5), and `likelihood`
(1–5) are set — setting only one or two does not exit draft. `transfer` and
`avoid` additionally require a `treatment_note`/`treatment_completion_note`
explaining the strategy; `mitigate`/`accept` don't need extra documentation.

Risk scores and state are computed and live in `meta` (`meta.state`,
`meta.inherent_risk`, `meta.residual_risk`) — not in `attributes`, unlike
most other resources.

## Commonly used with

- **`related_controls`** — must exist before this scenario is meaningful;
  `include=related_controls,owners` when listing.
- **`related_vendors`** / **`related_policies`** — the same \"helps mitigate
  this risk\" relationship, but to vendors/policies instead of controls.
- **`owners`** (users).
- **`GET /selected_risk_scenarios/stats`** — aggregate weekly inherent/
  residual risk trend across the whole register (a non-CRUD endpoint; reach
  it via `klaay call GET /selected_risk_scenarios/stats`).
";

pub const TASKS: &'static str = "# tasks

## What it is

An ad hoc to-do tied to a `subject` (any compliance resource — a vendor, a
control, an account_user, a workstream, etc.) with a due date. General
follow-up tracking that sits outside the structured state machines
(control lifecycle, policy publishing, risk treatment).

## Role in the SOC 2 journey

Not itself part of a fulfilled/failing area in `compliance_stats` — this is
the catch-all for \"someone needs to go do a specific thing\" (e.g. \"review
vendor contract,\" \"follow up on a misconfigured control\") that doesn't fit
neatly into one of the tracked areas.

## Commonly used with

- Whatever `subject` it's attached to — the `subject` relationship is
  **required** on create, and can point at vendors, selected_controls,
  account_users, workstreams, or other resources.
- **`title`** is required as well; `PATCH` with `state: \"completed\"` and a
  `completion_note` to close one out. Valid states: `pending`, `started`,
  `completed`, `failed`.
";

pub const TEAMS: &'static str = "# teams

## What it is

An org-chart grouping of `account_users` — a way to organize employees for
ownership and reporting rather than a compliance-status-bearing resource
itself.

## Role in the SOC 2 journey

Supporting/organizational — teams don't have their own fulfilled/failing
state in `compliance_stats`. They're useful for assigning ownership of
controls, vendors, or risk scenarios to a group rather than one person, and
for `compliance_stats`-adjacent reporting broken down by org unit.

## Commonly used with

- **`team_memberships`** — the join to add someone to a team; requires the
  **`account_user`** id (not the `user` id) — check
  `relationships.account_user` on the `users` response to find it.
- **`account_users`** — the people being organized.
";

pub const USERS: &'static str = "# users

## What it is

The actual person — email, name, and auth identity (`google_sub`/
`microsoft_sub` for SSO-linked accounts). Mostly static reference data.

## Role in the SOC 2 journey

Account-specific state (roles, compliance status, employment dates) does
**not** live here — it lives on `account_users`, the join between a person
and one specific account. A single person can have multiple `account_users`
records (one per account they belong to), each independently admin/member/
terminated/etc. If you're trying to answer \"is this employee compliant,\"
you want `account_users`, not this resource.

## Commonly used with

- **`account_users`** — the per-account membership and compliance status;
  look here first for anything employee-compliance related.
- **`teams`** (via `team_memberships`, which reference the `account_user`
  id).
";

pub const VENDORS: &'static str = "# vendors

## What it is

A third-party company providing goods or services to the organization,
usually created from a `predefined_vendor` template. Carries the risk-relevant
attributes an assessment needs: `data_types` (general, public, cui,
financial, proprietary, pii, phi, authentication, other),
`operational_impact` (1 low – 5 critical), `environment_access` (no_access,
read_only, read_and_write), `authentication_method` (credentials,
credentials_with_mfa, n/a, sso), and `sub_processor`.

## Role in the SOC 2 journey

Fulfilled when either no `integration_template` exists for this vendor at
all, OR a connected integration has actually collected data. `meta.
needs_risk_assessment` flags vendors with high `operational_impact` or
sensitive `data_types` — fill in all the risk attributes above to get an
accurate risk tier, not just the ones that seem obviously relevant.

Vendor work can proceed **in parallel** with controls — it doesn't block or
get blocked by the control-fulfillment loop.

## Commonly used with

- **`predefined_vendors`** — the catalog a vendor is instantiated from.
- **`integrations`** — connecting the vendor's actual data feed; a vendor
  attached to an integration template isn't fulfilled until the integration
  is live and has collected data.
- **`workstreams`** (`topic: \"vendor\"`) — AI-assisted SOC 2 report analysis
  and risk-assessment guidance.
- **`related_vendors`** — the join used when a vendor is tied to a specific
  `selected_risk_scenario`.
- **`vendor_user_accesses`** / `authorized_users` — who at the org has
  access to this vendor.
- Attachments: `documents`, `soc2_report`, `iso27001_report`,
  `data_agreement`, `icon` — several distinct file slots, each with its own
  size/type limits (icon is capped smaller than the rest).
";

pub const WORKSTREAMS: &'static str = "# workstreams

## What it is

An AI-assisted conversation anchored to one compliance subject — a
`selected_control`, `vendor`, `policy`, `selected_risk_scenario`,
`incident`, `device`, `domain`, `task`, `onboarding`, or others (the
`subject` relationship is polymorphic).

## Role in the SOC 2 journey

This is **the** way to get AI help on any resource in the compliance
program — explaining what a control requires, drafting policy content,
analyzing a vendor's SOC 2 report, guiding incident response, etc. Creating
one with a `topic`+`subject` pair that already has a workstream returns the
**existing** one rather than creating a duplicate, so it's safe to call
repeatedly without checking first.

The full loop: create (or reuse) the workstream → read
`relationships.conversation.data.id` off the response → send a
`user_messages` on that conversation → poll the conversation (not the
message) until the AI's reply reaches `meta.state: \"completed\"`.

## Commonly used with

- **`conversations`** — the message thread itself; `include=messages` when
  fetching a workstream, or fetch the conversation directly.
- **`user_messages`** / **`ai_messages`** — sending and receiving in that
  conversation (both are STI subtypes of `messages`).
- Whatever the `subject` is — `selected_controls`, `vendors`, `policies`,
  `selected_risk_scenarios`, `incidents`, etc.
";

/// The guidance on a resource, where there is any.
pub open spec fn guidance(resource: Seq<char>) -> Option<Seq<char>> {
    if resource == "accounts"@ {
        Some(ACCOUNTS@)
    } else if resource == "account_information_answers"@ {
        Some(ACCOUNT_INFORMATION_ANSWERS@)
    } else if resource == "account_users"@ {
        Some(ACCOUNT_USERS@)
    } else if resource == "collected_evidence_selected_controls"@ {
        Some(COLLECTED_EVIDENCE_SELECTED_CONTROLS@)
    } else if resource == "collected_evidences"@ {
        Some(COLLECTED_EVIDENCES@)
    } else if resource == "compliance_stats"@ {
        Some(COMPLIANCE_STATS@)
    } else if resource == "conversations"@ {
        Some(CONVERSATIONS@)
    } else if resource == "devices"@ {
        Some(DEVICES@)
    } else if resource == "evidence_checks"@ {
        Some(EVIDENCE_CHECKS@)
    } else if resource == "framework_selections"@ {
        Some(FRAMEWORK_SELECTIONS@)
    } else if resource == "incidents"@ {
        Some(INCIDENTS@)
    } else if resource == "messages"@ {
        Some(MESSAGES@)
    } else if resource == "policies"@ {
        Some(POLICIES@)
    } else if resource == "policy_versions"@ {
        Some(POLICY_VERSIONS@)
    } else if resource == "selected_controls"@ {
        Some(SELECTED_CONTROLS@)
    } else if resource == "selected_risk_scenarios"@ {
        Some(SELECTED_RISK_SCENARIOS@)
    } else if resource == "tasks"@ {
        Some(TASKS@)
    } else if resource == "teams"@ {
        Some(TEAMS@)
    } else if resource == "users"@ {
        Some(USERS@)
    } else if resource == "vendors"@ {
        Some(VENDORS@)
    } else if resource == "workstreams"@ {
        Some(WORKSTREAMS@)
    } else {
        None
    }
}

/// The guidance on a resource, where there is any.
pub fn lookup(resource: &str) -> (r: Option<&'static str>)
    ensures
        opt_str(r) == guidance(resource@),
{
    if same(resource, "accounts") {
        Some(ACCOUNTS)
    } else if same(resource, "account_information_answers") {
        Some(ACCOUNT_INFORMATION_ANSWERS)
    } else if same(resource, "account_users") {
        Some(ACCOUNT_USERS)
    } else if same(resource, "collected_evidence_selected_controls") {
        Some(COLLECTED_EVIDENCE_SELECTED_CONTROLS)
    } else if same(resource, "collected_evidences") {
        Some(COLLECTED_EVIDENCES)
    } else if same(resource, "compliance_stats") {
        Some(COMPLIANCE_STATS)
    } else if same(resource, "conversations") {
        Some(CONVERSATIONS)
    } else if same(resource, "devices") {
        Some(DEVICES)
    } else if same(resource, "evidence_checks") {
        Some(EVIDENCE_CHECKS)
    } else if same(resource, "framework_selections") {
        Some(FRAMEWORK_SELECTIONS)
    } else if same(resource, "incidents") {
        Some(INCIDENTS)
    } else if same(resource, "messages") {
        Some(MESSAGES)
    } else if same(resource, "policies") {
        Some(POLICIES)
    } else if same(resource, "policy_versions") {
        Some(POLICY_VERSIONS)
    } else if same(resource, "selected_controls") {
        Some(SELECTED_CONTROLS)
    } else if same(resource, "selected_risk_scenarios") {
        Some(SELECTED_RISK_SCENARIOS)
    } else if same(resource, "tasks") {
        Some(TASKS)
    } else if same(resource, "teams") {
        Some(TEAMS)
    } else if same(resource, "users") {
        Some(USERS)
    } else if same(resource, "vendors") {
        Some(VENDORS)
    } else if same(resource, "workstreams") {
        Some(WORKSTREAMS)
    } else {
        None
    }
}

/// The resources that there is guidance on, each with its own.
pub proof fn law_guidance_is_on_the_resource(resource: Seq<char>)
    ensures
        resource == "accounts"@ ==> guidance(resource) == Some(ACCOUNTS@),
        resource == "account_information_answers"@ ==> guidance(resource) == Some(ACCOUNT_INFORMATION_ANSWERS@),
        resource == "account_users"@ ==> guidance(resource) == Some(ACCOUNT_USERS@),
        resource == "collected_evidence_selected_controls"@ ==> guidance(resource) == Some(COLLECTED_EVIDENCE_SELECTED_CONTROLS@),
        resource == "collected_evidences"@ ==> guidance(resource) == Some(COLLECTED_EVIDENCES@),
        resource == "compliance_stats"@ ==> guidance(resource) == Some(COMPLIANCE_STATS@),
        resource == "conversations"@ ==> guidance(resource) == Some(CONVERSATIONS@),
        resource == "devices"@ ==> guidance(resource) == Some(DEVICES@),
        resource == "evidence_checks"@ ==> guidance(resource) == Some(EVIDENCE_CHECKS@),
        resource == "framework_selections"@ ==> guidance(resource) == Some(FRAMEWORK_SELECTIONS@),
        resource == "incidents"@ ==> guidance(resource) == Some(INCIDENTS@),
        resource == "messages"@ ==> guidance(resource) == Some(MESSAGES@),
        resource == "policies"@ ==> guidance(resource) == Some(POLICIES@),
        resource == "policy_versions"@ ==> guidance(resource) == Some(POLICY_VERSIONS@),
        resource == "selected_controls"@ ==> guidance(resource) == Some(SELECTED_CONTROLS@),
        resource == "selected_risk_scenarios"@ ==> guidance(resource) == Some(SELECTED_RISK_SCENARIOS@),
        resource == "tasks"@ ==> guidance(resource) == Some(TASKS@),
        resource == "teams"@ ==> guidance(resource) == Some(TEAMS@),
        resource == "users"@ ==> guidance(resource) == Some(USERS@),
        resource == "vendors"@ ==> guidance(resource) == Some(VENDORS@),
        resource == "workstreams"@ ==> guidance(resource) == Some(WORKSTREAMS@),
        guidance(resource) is Some <==> resource == "accounts"@
            || resource == "account_information_answers"@
            || resource == "account_users"@
            || resource == "collected_evidence_selected_controls"@
            || resource == "collected_evidences"@
            || resource == "compliance_stats"@
            || resource == "conversations"@
            || resource == "devices"@
            || resource == "evidence_checks"@
            || resource == "framework_selections"@
            || resource == "incidents"@
            || resource == "messages"@
            || resource == "policies"@
            || resource == "policy_versions"@
            || resource == "selected_controls"@
            || resource == "selected_risk_scenarios"@
            || resource == "tasks"@
            || resource == "teams"@
            || resource == "users"@
            || resource == "vendors"@
            || resource == "workstreams"@,
{
    reveal_strlit("accounts");
    reveal_strlit("account_information_answers");
    reveal_strlit("account_users");
    reveal_strlit("collected_evidence_selected_controls");
    reveal_strlit("collected_evidences");
    reveal_strlit("compliance_stats");
    reveal_strlit("conversations");
    reveal_strlit("devices");
    reveal_strlit("evidence_checks");
    reveal_strlit("framework_selections");
    reveal_strlit("incidents");
    reveal_strlit("messages");
    reveal_strlit("policies");
    reveal_strlit("policy_versions");
    reveal_strlit("selected_controls");
    reveal_strlit("selected_risk_scenarios");
    reveal_strlit("tasks");
    reveal_strlit("teams");
    reveal_strlit("users");
    reveal_strlit("vendors");
    reveal_strlit("workstreams");
    assert("accounts"@.len() == 8);
    assert("account_information_answers"@.len() == 27);
    assert("account_users"@.len() == 13);
    assert("collected_evidence_selected_controls"@.len() == 36);
    assert("collected_evidences"@.len() == 19);
    assert("compliance_stats"@.len() == 16);
    assert("conversations"@.len() == 13);
    assert("devices"@.len() == 7);
    assert("evidence_checks"@.len() == 15);
    assert("framework_selections"@.len() == 20);
    assert("incidents"@.len() == 9);
    assert("messages"@.len() == 8);
    assert("policies"@.len() == 8);
    assert("policy_versions"@.len() == 15);
    assert("selected_controls"@.len() == 17);
    assert("selected_risk_scenarios"@.len() == 23);
    assert("tasks"@.len() == 5);
    assert("teams"@.len() == 5);
    assert("users"@.len() == 5);
    assert("vendors"@.len() == 7);
    assert("workstreams"@.len() == 11);
    assert("accounts"@[0] == 'a' && "accounts"@[1] == 'c');
    assert("account_information_answers"@[0] == 'a' && "account_information_answers"@[1] == 'c');
    assert("account_users"@[0] == 'a' && "account_users"@[1] == 'c');
    assert("collected_evidence_selected_controls"@[0] == 'c' && "collected_evidence_selected_controls"@[1] == 'o');
    assert("collected_evidences"@[0] == 'c' && "collected_evidences"@[1] == 'o');
    assert("compliance_stats"@[0] == 'c' && "compliance_stats"@[1] == 'o');
    assert("conversations"@[0] == 'c' && "conversations"@[1] == 'o');
    assert("devices"@[0] == 'd' && "devices"@[1] == 'e');
    assert("evidence_checks"@[0] == 'e' && "evidence_checks"@[1] == 'v');
    assert("framework_selections"@[0] == 'f' && "framework_selections"@[1] == 'r');
    assert("incidents"@[0] == 'i' && "incidents"@[1] == 'n');
    assert("messages"@[0] == 'm' && "messages"@[1] == 'e');
    assert("policies"@[0] == 'p' && "policies"@[1] == 'o');
    assert("policy_versions"@[0] == 'p' && "policy_versions"@[1] == 'o');
    assert("selected_controls"@[0] == 's' && "selected_controls"@[1] == 'e');
    assert("selected_risk_scenarios"@[0] == 's' && "selected_risk_scenarios"@[1] == 'e');
    assert("tasks"@[0] == 't' && "tasks"@[1] == 'a');
    assert("teams"@[0] == 't' && "teams"@[1] == 'e');
    assert("users"@[0] == 'u' && "users"@[1] == 's');
    assert("vendors"@[0] == 'v' && "vendors"@[1] == 'e');
    assert("workstreams"@[0] == 'w' && "workstreams"@[1] == 'o');
}

} // verus!
