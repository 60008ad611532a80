//! What can be wrong with a schema, and how it is reported to schema authors.

use crate::text::{debug_text, decimal, gather, push_debug, push_decimal, texts};
use vstd::prelude::*;
use vstd::string::*;

verus! {

/// What a [`SchemaValidationError`] says.
#[verifier::ext_equal]
pub enum ErrorView {
    DuplicateConstraintId { id: Seq<char> },
    UnknownConstraintRef { id: Seq<char>, location: Seq<char> },
    MissingConstraintMessage { id: Seq<char>, location: Seq<char> },
    OptionStatesUnsupportedWidget { location: Seq<char>, widget: Seq<char> },
    OptionStateConflict { location: Seq<char>, value: Seq<char> },
    OptionStateMissingRule { location: Seq<char>, value: Seq<char> },
    DuplicateOptionStateValue { location: Seq<char>, value: Seq<char> },
    UnknownOptionValue { location: Seq<char>, value: Seq<char> },
    InvalidCelExpression { location: Seq<char>, expr: Seq<char>, detail: Seq<char> },
    DuplicateMigrationVersion { version: u32 },
    MigrationVersionExceedsTarget { version: u32, target: u32 },
    MigrationsWithoutSchemaVersion,
    TransformMissingMatch { location: Seq<char> },
}

/// Semantic schema error (English messages for schema authors).
#[derive(Debug, Clone, PartialEq, Eq)]
pub enum SchemaValidationError {
    DuplicateConstraintId { id: String },
    UnknownConstraintRef { id: String, location: String },
    MissingConstraintMessage { id: String, location: String },
    OptionStatesUnsupportedWidget { location: String, widget: String },
    OptionStateConflict { location: String, value: String },
    OptionStateMissingRule { location: String, value: String },
    DuplicateOptionStateValue { location: String, value: String },
    UnknownOptionValue { location: String, value: String },
    InvalidCelExpression { location: String, expr: String, detail: String },
    DuplicateMigrationVersion { version: u32 },
    MigrationVersionExceedsTarget { version: u32, target: u32 },
    MigrationsWithoutSchemaVersion,
    TransformMissingMatch { location: String },
}

impl View for SchemaValidationError {
    type V = ErrorView;

    open spec fn view(&self) -> ErrorView {
        match *self {
            SchemaValidationError::DuplicateConstraintId { id } => ErrorView::DuplicateConstraintId {
                id: id@,
            },
            SchemaValidationError::UnknownConstraintRef {
                id,
                location,
            } => ErrorView::UnknownConstraintRef { id: id@, location: location@ },
            SchemaValidationError::MissingConstraintMessage {
                id,
                location,
            } => ErrorView::MissingConstraintMessage { id: id@, location: location@ },
            SchemaValidationError::OptionStatesUnsupportedWidget {
                location,
                widget,
            } => ErrorView::OptionStatesUnsupportedWidget { location: location@, widget: widget@ },
            SchemaValidationError::OptionStateConflict {
                location,
                value,
            } => ErrorView::OptionStateConflict { location: location@, value: value@ },
            SchemaValidationError::OptionStateMissingRule {
                location,
                value,
            } => ErrorView::OptionStateMissingRule { location: location@, value: value@ },
            SchemaValidationError::DuplicateOptionStateValue {
                location,
                value,
            } => ErrorView::DuplicateOptionStateValue { location: location@, value: value@ },
            SchemaValidationError::UnknownOptionValue {
                location,
                value,
            } => ErrorView::UnknownOptionValue { location: location@, value: value@ },
            SchemaValidationError::InvalidCelExpression {
                location,
                expr,
                detail,
            } => ErrorView::InvalidCelExpression {
                location: location@,
                expr: expr@,
                detail: detail@,
            },
            SchemaValidationError::DuplicateMigrationVersion {
                version,
            } => ErrorView::DuplicateMigrationVersion { version },
            SchemaValidationError::MigrationVersionExceedsTarget {
                version,
                target,
            } => ErrorView::MigrationVersionExceedsTarget { version, target },
            SchemaValidationError::MigrationsWithoutSchemaVersion => {
                ErrorView::MigrationsWithoutSchemaVersion
            },
            SchemaValidationError::TransformMissingMatch {
                location,
            } => ErrorView::TransformMissingMatch { location: location@ },
        }
    }
}

/// What a list of errors says, in order.
pub open spec fn error_views(errors: Seq<SchemaValidationError>) -> Seq<ErrorView> {
    errors.map_values(|e: SchemaValidationError| e@)
}

/// Appending an error appends what it says.
pub(crate) proof fn lemma_error_views_push(
    errors: Seq<SchemaValidationError>,
    e: SchemaValidationError,
)
    ensures
        error_views(errors.push(e)) == error_views(errors) + seq![e@],
{
    assert(error_views(errors.push(e)) =~= error_views(errors) + seq![e@]);
}

impl ErrorView {
    /// The text after `error:`.
    pub open spec fn summary_text(self) -> Seq<char> {
        match self {
            ErrorView::DuplicateConstraintId { id } => "duplicate constraint id "@ + debug_text(id),
            ErrorView::UnknownConstraintRef { id, location } => "unknown constraint id "@
                + debug_text(id),
            ErrorView::MissingConstraintMessage { id, location } => "constraint "@ + debug_text(id)
                + " is referenced but has no `message`"@,
            ErrorView::OptionStatesUnsupportedWidget { location, widget } =>
                "option_states is only allowed on segmented_control and select (found widget="@
                + debug_text(widget) + ")"@,
            ErrorView::OptionStateConflict { location, value } => "option_states entry for value "@
                + debug_text(value) + " must set either `when` or `enabled`, not both"@,
            ErrorView::OptionStateMissingRule { location, value } =>
                "option_states entry for value "@ + debug_text(value)
                + " must set `when` or `enabled`"@,
            ErrorView::DuplicateOptionStateValue { location, value } =>
                "duplicate option_states value "@ + debug_text(value),
            ErrorView::UnknownOptionValue { location, value } => "option_states value "@
                + debug_text(value) + " is not listed in `options`"@,
            ErrorView::InvalidCelExpression { location, expr, detail } =>
                "invalid CEL expression: "@ + detail,
            ErrorView::DuplicateMigrationVersion { version } => "duplicate migration version "@
                + decimal(version as nat),
            ErrorView::MigrationVersionExceedsTarget { version, target } => "migration version "@
                + decimal(version as nat) + " exceeds schema_version "@ + decimal(target as nat),
            ErrorView::MigrationsWithoutSchemaVersion =>
                "[[migration]] entries require a top-level schema_version"@,
            ErrorView::TransformMissingMatch { location } =>
                "transform type \"enum_to_bool\" requires a `match` value"@,
        }
    }

    /// Where in the schema the error is.
    pub open spec fn context_text(self) -> Seq<char> {
        match self {
            ErrorView::DuplicateConstraintId { .. } => "[[constraints]]"@,
            ErrorView::DuplicateMigrationVersion { .. } => "[[migration]]"@,
            ErrorView::MigrationVersionExceedsTarget { .. } => "[[migration]]"@,
            ErrorView::MigrationsWithoutSchemaVersion => "[[migration]]"@,
            ErrorView::UnknownConstraintRef { id, location } => location,
            ErrorView::MissingConstraintMessage { id, location } => location,
            ErrorView::OptionStatesUnsupportedWidget { location, widget } => location,
            ErrorView::OptionStateConflict { location, value } => location,
            ErrorView::OptionStateMissingRule { location, value } => location,
            ErrorView::DuplicateOptionStateValue { location, value } => location,
            ErrorView::UnknownOptionValue { location, value } => location,
            ErrorView::InvalidCelExpression { location, expr, detail } => location,
            ErrorView::TransformMissingMatch { location } => location,
        }
    }

    /// What the author can do about it.
    pub open spec fn help_text(self) -> Seq<char> {
        match self {
            ErrorView::DuplicateConstraintId { .. } =>
                "use a unique `id` for each [[constraints]] entry"@,
            ErrorView::UnknownConstraintRef { .. } =>
                "add a [[constraints]] entry with this id or change the field's validate reference"@,
            ErrorView::MissingConstraintMessage { .. } =>
                "add a `message` to [[constraints]] or use an inline [[validate]] rule"@,
            ErrorView::OptionStatesUnsupportedWidget { .. } =>
                "remove [[tabs.fields.option_states]] or change widget to segmented_control / select"@,
            ErrorView::OptionStateConflict { .. } =>
                "set either `when` or `enabled` on the option_states entry, not both"@,
            ErrorView::OptionStateMissingRule { .. } =>
                "add `when` or `enabled` to the option_states entry"@,
            ErrorView::DuplicateOptionStateValue { .. } =>
                "remove the duplicate option_states entry for this value"@,
            ErrorView::UnknownOptionValue { .. } =>
                "use a value that appears in the field's `options` list"@,
            ErrorView::InvalidCelExpression { .. } =>
                "fix the CEL syntax or use a supported function"@,
            ErrorView::DuplicateMigrationVersion { .. } =>
                "use a unique `version` for each [[migration]] entry"@,
            ErrorView::MigrationVersionExceedsTarget { .. } =>
                "raise the top-level schema_version or lower the migration version"@,
            ErrorView::MigrationsWithoutSchemaVersion =>
                "add a top-level `schema_version` equal to the highest migration version"@,
            ErrorView::TransformMissingMatch { .. } =>
                "add `match = \"...\"` or change the transform type"@,
        }
    }

    /// Further lines below the place.
    pub open spec fn detail_texts(self) -> Seq<Seq<char>> {
        match self {
            ErrorView::InvalidCelExpression { location, expr, detail } => seq![
                "expr = "@ + debug_text(expr),
            ],
            _ => Seq::empty(),
        }
    }

    /// One further line of a report.
    pub open spec fn detail_line(self) -> spec_fn(int) -> Seq<char> {
        |i: int| "      "@ + self.detail_texts()[i] + "\n"@
    }

    /// The paragraph of a report that is about this error.
    pub open spec fn block_text(self, file_name: Seq<char>) -> Seq<char> {
        "error: "@ + self.summary_text() + "\n"@ + "  --> "@ + file_name + " ("@
            + self.context_text() + ")\n"@ + gather(self.detail_texts().len(), self.detail_line())
            + "help: "@ + self.help_text() + "\n"@
    }
}

impl SchemaValidationError {
    /// Short error summary for the `error:` line (no location suffix).
    pub fn summary(&self) -> (r: String)
        ensures
            r@ == self@.summary_text(),
    {
        match self {
            SchemaValidationError::DuplicateConstraintId { id } => {
                let mut s = "duplicate constraint id ".to_owned();
                push_debug(&mut s, id.as_str());
                s
            },
            SchemaValidationError::UnknownConstraintRef { id, .. } => {
                let mut s = "unknown constraint id ".to_owned();
                push_debug(&mut s, id.as_str());
                s
            },
            SchemaValidationError::MissingConstraintMessage { id, .. } => {
                let mut s = "constraint ".to_owned();
                push_debug(&mut s, id.as_str());
                s.append(" is referenced but has no `message`");
                s
            },
            SchemaValidationError::OptionStatesUnsupportedWidget { widget, .. } => {
                let mut s =
                    "option_states is only allowed on segmented_control and select (found widget=".to_owned();
                push_debug(&mut s, widget.as_str());
                s.append(")");
                s
            },
            SchemaValidationError::OptionStateConflict { value, .. } => {
                let mut s = "option_states entry for value ".to_owned();
                push_debug(&mut s, value.as_str());
                s.append(" must set either `when` or `enabled`, not both");
                s
            },
            SchemaValidationError::OptionStateMissingRule { value, .. } => {
                let mut s = "option_states entry for value ".to_owned();
                push_debug(&mut s, value.as_str());
                s.append(" must set `when` or `enabled`");
                s
            },
            SchemaValidationError::DuplicateOptionStateValue { value, .. } => {
                let mut s = "duplicate option_states value ".to_owned();
                push_debug(&mut s, value.as_str());
                s
            },
            SchemaValidationError::UnknownOptionValue { value, .. } => {
                let mut s = "option_states value ".to_owned();
                push_debug(&mut s, value.as_str());
                s.append(" is not listed in `options`");
                s
            },
            SchemaValidationError::InvalidCelExpression { detail, .. } => {
                let mut s = "invalid CEL expression: ".to_owned();
                s.append(detail.as_str());
                s
            },
            SchemaValidationError::DuplicateMigrationVersion { version } => {
                let mut s = "duplicate migration version ".to_owned();
                push_decimal(&mut s, *version as u64);
                s
            },
            SchemaValidationError::MigrationVersionExceedsTarget { version, target } => {
                let mut s = "migration version ".to_owned();
                push_decimal(&mut s, *version as u64);
                s.append(" exceeds schema_version ");
                push_decimal(&mut s, *target as u64);
                s
            },
            SchemaValidationError::MigrationsWithoutSchemaVersion => {
                "[[migration]] entries require a top-level schema_version".to_owned()
            },
            SchemaValidationError::TransformMissingMatch { .. } => {
                "transform type \"enum_to_bool\" requires a `match` value".to_owned()
            },
        }
    }

    /// Field context for the `-->` line. Every error has one.
    pub fn context(&self) -> (r: Option<&str>)
        ensures
            r matches Some(c) && c@ == self@.context_text(),
    {
        match self {
            SchemaValidationError::DuplicateConstraintId { .. } => Some("[[constraints]]"),
            SchemaValidationError::DuplicateMigrationVersion { .. } => Some("[[migration]]"),
            SchemaValidationError::MigrationVersionExceedsTarget { .. } => Some("[[migration]]"),
            SchemaValidationError::MigrationsWithoutSchemaVersion => Some("[[migration]]"),
            SchemaValidationError::UnknownConstraintRef { location, .. } => Some(location.as_str()),
            SchemaValidationError::MissingConstraintMessage { location, .. } => {
                Some(location.as_str())
            },
            SchemaValidationError::OptionStatesUnsupportedWidget { location, .. } => {
                Some(location.as_str())
            },
            SchemaValidationError::OptionStateConflict { location, .. } => Some(location.as_str()),
            SchemaValidationError::OptionStateMissingRule { location, .. } => {
                Some(location.as_str())
            },
            SchemaValidationError::DuplicateOptionStateValue { location, .. } => {
                Some(location.as_str())
            },
            SchemaValidationError::UnknownOptionValue { location, .. } => Some(location.as_str()),
            SchemaValidationError::InvalidCelExpression { location, .. } => Some(location.as_str()),
            SchemaValidationError::TransformMissingMatch { location } => Some(location.as_str()),
        }
    }

    /// Actionable hint for the `help:` line.
    pub fn help(&self) -> (r: &'static str)
        ensures
            r@ == self@.help_text(),
    {
        match self {
            SchemaValidationError::DuplicateConstraintId { .. } => {
                "use a unique `id` for each [[constraints]] entry"
            },
            SchemaValidationError::UnknownConstraintRef { .. } => {
                "add a [[constraints]] entry with this id or change the field's validate reference"
            },
            SchemaValidationError::MissingConstraintMessage { .. } => {
                "add a `message` to [[constraints]] or use an inline [[validate]] rule"
            },
            SchemaValidationError::OptionStatesUnsupportedWidget { .. } => {
                "remove [[tabs.fields.option_states]] or change widget to segmented_control / select"
            },
            SchemaValidationError::OptionStateConflict { .. } => {
                "set either `when` or `enabled` on the option_states entry, not both"
            },
            SchemaValidationError::OptionStateMissingRule { .. } => {
                "add `when` or `enabled` to the option_states entry"
            },
            SchemaValidationError::DuplicateOptionStateValue { .. } => {
                "remove the duplicate option_states entry for this value"
            },
            SchemaValidationError::UnknownOptionValue { .. } => {
                "use a value that appears in the field's `options` list"
            },
            SchemaValidationError::InvalidCelExpression { .. } => {
                "fix the CEL syntax or use a supported function"
            },
            SchemaValidationError::DuplicateMigrationVersion { .. } => {
                "use a unique `version` for each [[migration]] entry"
            },
            SchemaValidationError::MigrationVersionExceedsTarget { .. } => {
                "raise the top-level schema_version or lower the migration version"
            },
            SchemaValidationError::MigrationsWithoutSchemaVersion => {
                "add a top-level `schema_version` equal to the highest migration version"
            },
            SchemaValidationError::TransformMissingMatch { .. } => {
                "add `match = \"...\"` or change the transform type"
            },
        }
    }

    /// Extra detail lines shown after the context (e.g. CEL source).
    pub fn detail_lines(&self) -> (r: Vec<String>)
        ensures
            texts(r@) == self@.detail_texts(),
    {
        let mut lines: Vec<String> = Vec::new();
        if let SchemaValidationError::InvalidCelExpression { expr, .. } = self {
            let mut line = "expr = ".to_owned();
            push_debug(&mut line, expr.as_str());
            lines.push(line);
        }
        assert(texts(lines@) =~= self@.detail_texts());
        lines
    }
}

/// The paragraph of a report that is about the `i`-th error: paragraphs are set
/// apart by an empty line.
pub open spec fn report_block(errors: Seq<ErrorView>, file_name: Seq<char>) -> spec_fn(int) -> Seq<
    char,
> {
    |i: int|
        if i > 0 {
            "\n"@ + errors[i].block_text(file_name)
        } else {
            errors[i].block_text(file_name)
        }
}

/// A whole report.
pub open spec fn report_text(
    file_name: Option<Seq<char>>,
    path: Seq<char>,
    errors: Seq<ErrorView>,
) -> Seq<char> {
    let shown_name = match file_name {
        Some(name) => name,
        None => "schema.toml"@,
    };
    let blocks = gather(errors.len(), report_block(errors, shown_name));
    let count = if errors.len() > 1 {
        "\n"@ + "error: "@ + decimal(errors.len()) + " validation errors in "@ + path + "\n"@
    } else {
        Seq::empty()
    };
    blocks + count + "help: fix all reported issues, then run `settings-schema-checker "@ + path
        + "`\n"@
}

/// Formats all validation errors for terminal output (English, rustc-style).
/// `file_name` is the last component of the schema's path and `path` the path
/// as it is shown.
pub fn format_validation_errors(
    file_name: Option<&str>,
    path: &str,
    errors: &[SchemaValidationError],
) -> (r: String)
    ensures
        r@ == report_text(
            match file_name {
                Some(name) => Some(name@),
                None => None,
            },
            path@,
            error_views(errors@),
        ),
{
    let shown_name: &str = match file_name {
        Some(name) => name,
        None => "schema.toml",
    };
    let ghost views = error_views(errors@);
    let ghost block = report_block(views, shown_name@);
    let mut out = String::new();
    let mut i: usize = 0;
    while i < errors.len()
        invariant
            i <= errors.len(),
            views == error_views(errors@),
            block == report_block(views, shown_name@),
            out@ == gather(i as nat, block),
        decreases errors.len() - i,
    {
        let ghost before = out@;
        let err = &errors[i];
        if i > 0 {
            out.append("\n");
        }
        out.append("error: ");
        out.append(err.summary().as_str());
        out.append("\n");
        let lines = err.detail_lines();
        if let Some(context) = err.context() {
            out.append("  --> ");
            out.append(shown_name);
            out.append(" (");
            out.append(context);
            out.append(")\n");
            let ghost head = out@;
            let ghost line = err@.detail_line();
            let mut j: usize = 0;
            while j < lines.len()
                invariant
                    j <= lines.len(),
                    texts(lines@) == err@.detail_texts(),
                    line == err@.detail_line(),
                    out@ == head + gather(j as nat, line),
                decreases lines.len() - j,
            {
                let ghost at = out@;
                out.append("      ");
                out.append(lines[j].as_str());
                out.append("\n");
                assert(texts(lines@)[j as int] == lines@[j as int]@);
                assert(out@ =~= head + gather((j + 1) as nat, line));
                j += 1;
            }
            assert(lines@.len() == err@.detail_texts().len());
        }
        out.append("help: ");
        out.append(err.help());
        out.append("\n");
        proof {
            assert(views[i as int] == err@);
            assert(out@ =~= before + block(i as int));
        }
        i += 1;
    }
    let ghost blocks = out@;
    if errors.len() > 1 {
        out.append("\n");
        out.append("error: ");
        push_decimal(&mut out, errors.len() as u64);
        out.append(" validation errors in ");
        out.append(path);
        out.append("\n");
    }
    out.append("help: fix all reported issues, then run `settings-schema-checker ");
    out.append(path);
    out.append("`\n");
    proof {
        let name = match file_name {
            Some(name) => Some(name@),
            None => None,
        };
        assert(out@ =~= report_text(name, path@, views));
    }
    out
}

/// The line that is reported when a schema file cannot be read.
pub fn read_failure(path: &str, reason: &str) -> (r: String)
    ensures
        r@ == "error: cannot read schema file "@ + path@ + ": "@ + reason@,
{
    let mut s = "error: cannot read schema file ".to_owned();
    s.append(path);
    s.append(": ");
    s.append(reason);
    s
}

/// The lines that are reported when a schema file is not valid TOML.
pub fn parse_failure(path: &str, reason: &str) -> (r: String)
    ensures
        r@ == "error: TOML parse failed in "@ + path@ + "\n  "@ + reason@,
{
    let mut s = "error: TOML parse failed in ".to_owned();
    s.append(path);
    s.append("\n  ");
    s.append(reason);
    s
}

/// Whether a text has another one in it.
pub open spec fn has_within(text: Seq<char>, part: Seq<char>) -> bool {
    exists|i: int| 0 <= i && i + part.len() <= text.len() && #[trigger] text.subrange(
        i,
        (i + part.len()) as int,
    ) == part
}

proof fn lemma_within(before: Seq<char>, part: Seq<char>, after: Seq<char>)
    ensures
        has_within(before + part + after, part),
{
    let text = before + part + after;
    let i = before.len() as int;
    assert(text.subrange(i, (i + part.len()) as int) =~= part);
}

/// Every error is reported in a paragraph of its own: one that begins with what is wrong,
/// says where, and ends with what to do.
pub proof fn paragraphs_say_what_where_and_what_to_do(e: ErrorView, file_name: Seq<char>)
    ensures
        ({
            let block = e.block_text(file_name);
            let start = "error: "@ + e.summary_text() + "\n"@;
            let place = "  --> "@ + file_name + " ("@ + e.context_text() + ")\n"@;
            let end = "help: "@ + e.help_text() + "\n"@;
            &&& start.len() + place.len() + end.len() <= block.len()
            &&& block.take(start.len() as int) == start
            &&& block.subrange(start.len() as int, (start.len() + place.len()) as int) == place
            &&& block.skip(block.len() - end.len()) == end
            &&& e matches ErrorView::InvalidCelExpression { location, expr, detail } ==> block
                == start + place + "      expr = "@ + debug_text(expr) + "\n"@ + end
            &&& !(e is InvalidCelExpression) ==> block == start + place + end
        }),
{
    let block = e.block_text(file_name);
    let start = "error: "@ + e.summary_text() + "\n"@;
    let place = "  --> "@ + file_name + " ("@ + e.context_text() + ")\n"@;
    let end = "help: "@ + e.help_text() + "\n"@;
    let details = gather(e.detail_texts().len(), e.detail_line());
    assert(block =~= start + place + details + end);
    assert(block.take(start.len() as int) =~= start);
    assert(block.subrange(start.len() as int, (start.len() + place.len()) as int) =~= place);
    assert(block.skip(block.len() - end.len()) =~= end);
    if let ErrorView::InvalidCelExpression { location, expr, detail } = e {
        reveal_strlit("      expr = ");
        reveal_strlit("      ");
        reveal_strlit("expr = ");
        assert("      expr = "@ =~= "      "@ + "expr = "@);
        assert(gather(0, e.detail_line()) =~= Seq::<char>::empty());
        assert(details =~= e.detail_line()(0));
        assert(details =~= "      expr = "@ + debug_text(expr) + "\n"@);
        assert(block =~= start + place + "      expr = "@ + debug_text(expr) + "\n"@ + end);
    } else {
        assert(details =~= Seq::<char>::empty());
        assert(block =~= start + place + end);
    }
}

/// An error about a part of the schema is placed where that part is.
pub proof fn errors_are_placed_where_they_are(e: ErrorView)
    ensures
        match e {
            ErrorView::UnknownConstraintRef { id, location } => e.context_text() == location,
            ErrorView::MissingConstraintMessage { id, location } => e.context_text() == location,
            ErrorView::OptionStatesUnsupportedWidget { location, widget } => e.context_text()
                == location,
            ErrorView::OptionStateConflict { location, value } => e.context_text() == location,
            ErrorView::OptionStateMissingRule { location, value } => e.context_text() == location,
            ErrorView::DuplicateOptionStateValue { location, value } => e.context_text()
                == location,
            ErrorView::UnknownOptionValue { location, value } => e.context_text() == location,
            ErrorView::InvalidCelExpression { location, expr, detail } => e.context_text()
                == location,
            ErrorView::TransformMissingMatch { location } => e.context_text() == location,
            ErrorView::DuplicateConstraintId { .. } => e.context_text() == "[[constraints]]"@,
            _ => e.context_text() == "[[migration]]"@,
        },
{
}

/// What is wrong is said with the id, the value, the widget or the versions that it is
/// about, and with what compiling an expression complains of.
pub proof fn summaries_name_what_is_wrong(e: ErrorView)
    ensures
        match e {
            ErrorView::DuplicateConstraintId { id } => has_within(
                e.summary_text(),
                debug_text(id),
            ),
            ErrorView::UnknownConstraintRef { id, location } => has_within(
                e.summary_text(),
                debug_text(id),
            ),
            ErrorView::MissingConstraintMessage { id, location } => has_within(
                e.summary_text(),
                debug_text(id),
            ),
            ErrorView::OptionStatesUnsupportedWidget { location, widget } => has_within(
                e.summary_text(),
                debug_text(widget),
            ),
            ErrorView::OptionStateConflict { location, value } => has_within(
                e.summary_text(),
                debug_text(value),
            ),
            ErrorView::OptionStateMissingRule { location, value } => has_within(
                e.summary_text(),
                debug_text(value),
            ),
            ErrorView::DuplicateOptionStateValue { location, value } => has_within(
                e.summary_text(),
                debug_text(value),
            ),
            ErrorView::UnknownOptionValue { location, value } => has_within(
                e.summary_text(),
                debug_text(value),
            ),
            ErrorView::InvalidCelExpression { location, expr, detail } => has_within(
                e.summary_text(),
                detail,
            ),
            ErrorView::DuplicateMigrationVersion { version } => has_within(
                e.summary_text(),
                decimal(version as nat),
            ),
            ErrorView::MigrationVersionExceedsTarget { version, target } => has_within(
                e.summary_text(),
                decimal(version as nat),
            ) && has_within(e.summary_text(), decimal(target as nat)),
            _ => true,
        },
{
    let none = Seq::<char>::empty();
    let summary = e.summary_text();
    match e {
        ErrorView::DuplicateConstraintId { id } => {
            lemma_within("duplicate constraint id "@, debug_text(id), none);
            assert(summary + none =~= summary);
        },
        ErrorView::UnknownConstraintRef { id, location } => {
            lemma_within("unknown constraint id "@, debug_text(id), none);
            assert(summary + none =~= summary);
        },
        ErrorView::MissingConstraintMessage { id, location } => {
            lemma_within(
                "constraint "@,
                debug_text(id),
                " is referenced but has no `message`"@,
            );
        },
        ErrorView::OptionStatesUnsupportedWidget { location, widget } => {
            lemma_within(
                "option_states is only allowed on segmented_control and select (found widget="@,
                debug_text(widget),
                ")"@,
            );
        },
        ErrorView::OptionStateConflict { location, value } => {
            lemma_within(
                "option_states entry for value "@,
                debug_text(value),
                " must set either `when` or `enabled`, not both"@,
            );
        },
        ErrorView::OptionStateMissingRule { location, value } => {
            lemma_within(
                "option_states entry for value "@,
                debug_text(value),
                " must set `when` or `enabled`"@,
            );
        },
        ErrorView::DuplicateOptionStateValue { location, value } => {
            lemma_within("duplicate option_states value "@, debug_text(value), none);
            assert(summary + none =~= summary);
        },
        ErrorView::UnknownOptionValue { location, value } => {
            lemma_within(
                "option_states value "@,
                debug_text(value),
                " is not listed in `options`"@,
            );
        },
        ErrorView::InvalidCelExpression { location, expr, detail } => {
            lemma_within("invalid CEL expression: "@, detail, none);
            assert(summary + none =~= summary);
        },
        ErrorView::DuplicateMigrationVersion { version } => {
            lemma_within("duplicate migration version "@, decimal(version as nat), none);
            assert(summary + none =~= summary);
        },
        ErrorView::MigrationVersionExceedsTarget { version, target } => {
            let v = decimal(version as nat);
            let t = decimal(target as nat);
            lemma_within("migration version "@, v, " exceeds schema_version "@ + t);
            assert(summary =~= "migration version "@ + v + (" exceeds schema_version "@ + t));
            lemma_within("migration version "@ + v + " exceeds schema_version "@, t, none);
            assert(summary + none =~= summary);
        },
        _ => {},
    }
}

/// The report of a single error is its paragraph and the last line, which names the path.
/// With more errors, the paragraphs follow each other with an empty line between them, and
/// their number is given.
pub proof fn reports_hold_every_paragraph(
    file_name: Option<Seq<char>>,
    path: Seq<char>,
    errors: Seq<ErrorView>,
    e: ErrorView,
)
    requires
        errors.len() > 0,
    ensures
        ({
            let name = match file_name {
                Some(name) => name,
                None => "schema.toml"@,
            };
            let last = "help: fix all reported issues, then run `settings-schema-checker "@ + path
                + "`\n"@;
            let count = "\n"@ + "error: "@ + decimal(errors.len() + 1) + " validation errors in "@
                + path + "\n"@;
            let blocks = gather(errors.len(), report_block(errors, name));
            &&& report_text(file_name, path, seq![e]) == e.block_text(name) + last
            &&& report_text(file_name, path, errors.push(e)) == blocks + "\n"@ + e.block_text(name)
                + count + last
            &&& gather(1, report_block(errors, name)) == errors[0].block_text(name)
        }),
{
    let name = match file_name {
        Some(name) => name,
        None => "schema.toml"@,
    };
    let last = "help: fix all reported issues, then run `settings-schema-checker "@ + path + "`\n"@;
    let count = "\n"@ + "error: "@ + decimal(errors.len() + 1) + " validation errors in "@ + path
        + "\n"@;
    let blocks = gather(errors.len(), report_block(errors, name));
    let more = errors.push(e);
    let one = report_block(seq![e], name);
    assert(gather(0, one) =~= Seq::<char>::empty());
    assert(gather(1, one) =~= e.block_text(name));
    assert(report_text(file_name, path, seq![e]) =~= e.block_text(name) + last);
    lemma_blocks_agree(errors, more, name, errors.len());
    assert(gather(more.len(), report_block(more, name)) =~= blocks + "\n"@ + e.block_text(name));
    assert(report_text(file_name, path, more) =~= blocks + "\n"@ + e.block_text(name) + count
        + last);
    assert(gather(0, report_block(errors, name)) =~= Seq::<char>::empty());
    assert(gather(1, report_block(errors, name)) =~= errors[0].block_text(name));
}

proof fn lemma_blocks_agree(
    errors: Seq<ErrorView>,
    more: Seq<ErrorView>,
    name: Seq<char>,
    n: nat,
)
    requires
        n <= errors.len() <= more.len(),
        forall|i: int| 0 <= i < errors.len() ==> errors[i] == more[i],
    ensures
        gather(n, report_block(errors, name)) == gather(n, report_block(more, name)),
    decreases n,
{
    if n > 0 {
        lemma_blocks_agree(errors, more, name, (n - 1) as nat);
    }
}

/// What a list of errors says is what its errors say, one by one.
pub proof fn errors_are_read_one_by_one(errors: Seq<SchemaValidationError>, i: int)
    ensures
        error_views(errors).len() == errors.len(),
        0 <= i < errors.len() ==> error_views(errors)[i] == errors[i]@,
{
}

/// An error says nothing but its kind, and the texts and numbers that it holds.
pub proof fn errors_say_what_they_hold(e: SchemaValidationError)
    ensures
        match e {
            SchemaValidationError::DuplicateConstraintId { id } => e@
                matches ErrorView::DuplicateConstraintId { id: i } && i == id@,
            SchemaValidationError::UnknownConstraintRef { id, location } => e@
                matches ErrorView::UnknownConstraintRef { id: i, location: l } && i == id@ && l
                == location@,
            SchemaValidationError::MissingConstraintMessage { id, location } => e@
                matches ErrorView::MissingConstraintMessage { id: i, location: l } && i == id@ && l
                == location@,
            SchemaValidationError::OptionStatesUnsupportedWidget { location, widget } => e@
                matches ErrorView::OptionStatesUnsupportedWidget { location: l, widget: w } && l
                == location@ && w == widget@,
            SchemaValidationError::OptionStateConflict { location, value } => e@
                matches ErrorView::OptionStateConflict { location: l, value: v } && l == location@
                && v == value@,
            SchemaValidationError::OptionStateMissingRule { location, value } => e@
                matches ErrorView::OptionStateMissingRule { location: l, value: v } && l
                == location@ && v == value@,
            SchemaValidationError::DuplicateOptionStateValue { location, value } => e@
                matches ErrorView::DuplicateOptionStateValue { location: l, value: v } && l
                == location@ && v == value@,
            SchemaValidationError::UnknownOptionValue { location, value } => e@
                matches ErrorView::UnknownOptionValue { location: l, value: v } && l == location@
                && v == value@,
            SchemaValidationError::InvalidCelExpression { location, expr, detail } => e@
                matches ErrorView::InvalidCelExpression { location: l, expr: x, detail: d } && l
                == location@ && x == expr@ && d == detail@,
            SchemaValidationError::DuplicateMigrationVersion { version } => e@
                matches ErrorView::DuplicateMigrationVersion { version: v } && v == version,
            SchemaValidationError::MigrationVersionExceedsTarget { version, target } => e@
                matches ErrorView::MigrationVersionExceedsTarget { version: v, target: t } && v
                == version && t == target,
            SchemaValidationError::MigrationsWithoutSchemaVersion => e@
                is MigrationsWithoutSchemaVersion,
            SchemaValidationError::TransformMissingMatch { location } => e@
                matches ErrorView::TransformMissingMatch { location: l } && l == location@,
        },
{
}

} // verus!
