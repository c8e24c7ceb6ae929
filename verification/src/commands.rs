//! The command protocol of the agent mode: which command an action names,
//! what the agent reports when it starts one, and how it acknowledges it.

use vstd::prelude::*;
use vstd::string::StringExecFns;
use crate::text::text_eq;

verus! {

/// The commands the orchestrator can send.
#[derive(Debug, Clone, Copy, PartialEq, Eq, Hash, Structural)]
pub enum CommandKind {
    Scan,
    AuditDeps,
    CheckSecrets,
    Report,
    Status,
    PredictCritical,
    RiskAssess,
    ChurnReport,
    Unknown,
}

/// The command an action name stands for.
pub open spec fn spec_command_kind(action: Seq<char>) -> CommandKind {
    if action == "scan"@ {
        CommandKind::Scan
    } else if action == "audit-deps"@ {
        CommandKind::AuditDeps
    } else if action == "check-secrets"@ {
        CommandKind::CheckSecrets
    } else if action == "report"@ {
        CommandKind::Report
    } else if action == "status"@ {
        CommandKind::Status
    } else if action == "predict-critical"@ {
        CommandKind::PredictCritical
    } else if action == "risk-assess"@ {
        CommandKind::RiskAssess
    } else if action == "churn-report"@ {
        CommandKind::ChurnReport
    } else {
        CommandKind::Unknown
    }
}

/// Reads the command of an action name.
pub fn command_kind(action: &str) -> (k: CommandKind)
    ensures
        k == spec_command_kind(action@),
{
    if text_eq(action, "scan") {
        CommandKind::Scan
    } else if text_eq(action, "audit-deps") {
        CommandKind::AuditDeps
    } else if text_eq(action, "check-secrets") {
        CommandKind::CheckSecrets
    } else if text_eq(action, "report") {
        CommandKind::Report
    } else if text_eq(action, "status") {
        CommandKind::Status
    } else if text_eq(action, "predict-critical") {
        CommandKind::PredictCritical
    } else if text_eq(action, "risk-assess") {
        CommandKind::RiskAssess
    } else if text_eq(action, "churn-report") {
        CommandKind::ChurnReport
    } else {
        CommandKind::Unknown
    }
}

/// The target of a command: the one given, else the current directory.
pub fn command_target(target: &Option<String>) -> (t: String)
    ensures
        t@ == (match target {
            Some(given) => given@,
            None => "."@,
        }),
{
    match target {
        Some(given) => given.clone(),
        None => String::from_str("."),
    }
}

/// The view of a list of key/text pairs.
pub open spec fn pairs_view(p: Seq<(String, String)>) -> Seq<(Seq<char>, Seq<char>)> {
    p.map_values(|kv: (String, String)| (kv.0@, kv.1@))
}

/// The fields of an analysis event: the finding, then the file and the
/// recommendation when given.
pub open spec fn spec_payload(finding: Seq<char>, file: Option<Seq<char>>, recommendation: Option<Seq<char>>) -> Seq<
    (Seq<char>, Seq<char>),
> {
    seq![("finding"@, finding)] + (match file {
        Some(f) => seq![("file"@, f)],
        None => Seq::empty(),
    }) + (match recommendation {
        Some(r) => seq![("recommendation"@, r)],
        None => Seq::empty(),
    })
}

/// Builds the fields of an analysis event.
pub fn build_analysis_payload(finding: &str, file: Option<&str>, recommendation: Option<&str>) -> (p: Vec<
    (String, String),
>)
    ensures
        pairs_view(p@) == spec_payload(
            finding@,
            match file {
                Some(f) => Some(f@),
                None => None,
            },
            match recommendation {
                Some(r) => Some(r@),
                None => None,
            },
        ),
{
    let mut p: Vec<(String, String)> = Vec::new();
    p.push((String::from_str("finding"), String::from_str(finding)));
    if let Some(f) = file {
        p.push((String::from_str("file"), String::from_str(f)));
    }
    if let Some(r) = recommendation {
        p.push((String::from_str("recommendation"), String::from_str(r)));
    }
    assert(pairs_view(p@) =~= spec_payload(
        finding@,
        match file {
            Some(f) => Some(f@),
            None => None,
        },
        match recommendation {
            Some(r) => Some(r@),
            None => None,
        },
    ));
    p
}

/// An event the agent reports to the orchestrator.
#[derive(Debug, Clone)]
pub struct Notice {
    pub event_type: String,
    pub severity: String,
    pub payload: Vec<(String, String)>,
}

/// (event type, severity, fields) of a notice.
pub open spec fn notice_view(n: Notice) -> (Seq<char>, Seq<char>, Seq<(Seq<char>, Seq<char>)>) {
    (n.event_type@, n.severity@, pairs_view(n.payload@))
}

/// What the agent reports when it starts a command on `target`.
pub open spec fn spec_start_notice(kind: CommandKind, target: Seq<char>) -> Option<
    (Seq<char>, Seq<char>, Seq<(Seq<char>, Seq<char>)>),
> {
    match kind {
        CommandKind::Scan => Some(
            (
                "scan_started"@,
                "info"@,
                spec_payload("Escaneo iniciado por Cerebro"@, Some(target), None),
            ),
        ),
        CommandKind::AuditDeps => Some(
            (
                "audit_deps_started"@,
                "info"@,
                spec_payload(
                    "Auditoría de dependencias iniciada"@,
                    None,
                    Some("Ejecutar 'cargo audit' manualmente para ver vulnerabilidades"@),
                ),
            ),
        ),
        CommandKind::CheckSecrets => Some(
            (
                "check_secrets_started"@,
                "info"@,
                spec_payload(
                    "Verificación de secretos iniciada"@,
                    Some(target),
                    Some("Revisar archivos .env y configuraciones"@),
                ),
            ),
        ),
        CommandKind::Report => Some(
            (
                "report_generated"@,
                "info"@,
                spec_payload(
                    "Reporte de seguridad generado"@,
                    None,
                    Some("Ver análisis histórico con 'warden .'"@),
                ),
            ),
        ),
        CommandKind::PredictCritical => Some(
            (
                "predict_critical_started"@,
                "info"@,
                spec_payload(
                    "Predicción de críticos iniciada para "@ + target,
                    Some(target),
                    Some("Analizando 30 días adelante con threshold 0.5"@),
                ),
            ),
        ),
        CommandKind::RiskAssess => Some(
            (
                "risk_assess_started"@,
                "info"@,
                spec_payload(
                    "Evaluación de riesgos iniciada para "@ + target,
                    Some(target),
                    Some("Calculando scores compuestos: churn × loc × authors × complexity"@),
                ),
            ),
        ),
        CommandKind::ChurnReport => Some(
            (
                "churn_report_started"@,
                "info"@,
                spec_payload(
                    "Reporte de churn generado para 12 semanas"@,
                    Some(target),
                    Some("Analizando tendencias semanales y patrones"@),
                ),
            ),
        ),
        CommandKind::Status => None,
        CommandKind::Unknown => None,
    }
}

/// An action name with its hyphens written as underscores.
pub open spec fn underscored(action: Seq<char>) -> Seq<char> {
    action.map_values(|c: char| if c == '-' { '_' } else { c })
}

proof fn lemma_started_name(action: Seq<char>, name: Seq<char>, event: Seq<char>)
    requires
        event == name + "_started"@,
        underscored(action) =~= name,
    ensures
        event == underscored(action) + "_started"@,
{
}

/// The event that reports the start of a command names the command: it is
/// the action with its hyphens written as underscores, then `_started`
/// (`report`, which finishes at once, reports `report_generated`); `status`
/// and unknown actions report nothing. Different commands never report the
/// same start event.
pub proof fn law_start_event_names_command(action: Seq<char>, target: Seq<char>)
    ensures
        ({
            let k = spec_command_kind(action);
            &&& (k != CommandKind::Report && k != CommandKind::Status && k != CommandKind::Unknown)
                ==> (spec_start_notice(k, target) matches Some(n) && n.0 == underscored(action) + "_started"@)
            &&& k == CommandKind::Report ==> (spec_start_notice(k, target) matches Some(n) && n.0
                == "report_generated"@)
            &&& (k == CommandKind::Status || k == CommandKind::Unknown) ==> spec_start_notice(k, target) is None
        }),
{
    reveal_strlit("scan");
    reveal_strlit("audit-deps");
    reveal_strlit("check-secrets");
    reveal_strlit("predict-critical");
    reveal_strlit("risk-assess");
    reveal_strlit("churn-report");
    reveal_strlit("scan_started");
    reveal_strlit("audit_deps_started");
    reveal_strlit("check_secrets_started");
    reveal_strlit("predict_critical_started");
    reveal_strlit("risk_assess_started");
    reveal_strlit("churn_report_started");
    reveal_strlit("_started");
    reveal_strlit("scan");
    let k = spec_command_kind(action);
    if k == CommandKind::Scan {
        assert(underscored(action) =~= "scan"@);
        assert("scan_started"@ =~= "scan"@ + "_started"@);
    } else if k == CommandKind::AuditDeps {
        assert(underscored(action) =~= seq!['a', 'u', 'd', 'i', 't', '_', 'd', 'e', 'p', 's']);
        assert("audit_deps_started"@ =~= seq!['a', 'u', 'd', 'i', 't', '_', 'd', 'e', 'p', 's'] + "_started"@);
    } else if k == CommandKind::CheckSecrets {
        let name = seq!['c', 'h', 'e', 'c', 'k', '_', 's', 'e', 'c', 'r', 'e', 't', 's'];
        assert(underscored(action) =~= name);
        assert("check_secrets_started"@ =~= name + "_started"@);
    } else if k == CommandKind::PredictCritical {
        let name = seq!['p', 'r', 'e', 'd', 'i', 'c', 't', '_', 'c', 'r', 'i', 't', 'i', 'c', 'a', 'l'];
        assert(underscored(action) =~= name);
        assert("predict_critical_started"@ =~= name + "_started"@);
    } else if k == CommandKind::RiskAssess {
        let name = seq!['r', 'i', 's', 'k', '_', 'a', 's', 's', 'e', 's', 's'];
        assert(underscored(action) =~= name);
        assert("risk_assess_started"@ =~= name + "_started"@);
    } else if k == CommandKind::ChurnReport {
        let name = seq!['c', 'h', 'u', 'r', 'n', '_', 'r', 'e', 'p', 'o', 'r', 't'];
        assert(underscored(action) =~= name);
        assert("churn_report_started"@ =~= name + "_started"@);
    }
}

/// A start event is informational and leads with its finding; the commands
/// that work on a target name it as the event's file, and those that do not
/// (`audit-deps`, `report`) name no file.
pub proof fn law_start_event_names_target(kind: CommandKind, target: Seq<char>)
    ensures
        spec_start_notice(kind, target) matches Some(n) ==> n.1 == "info"@ && n.2.len() >= 1 && n.2[0].0
            == "finding"@,
        (kind == CommandKind::Scan || kind == CommandKind::CheckSecrets || is_analysis(kind)) ==> (spec_start_notice(
            kind,
            target,
        ) matches Some(n) && n.2.len() >= 2 && n.2[1] == ("file"@, target)),
        (kind == CommandKind::AuditDeps || kind == CommandKind::Report) ==> (spec_start_notice(kind, target) matches Some(
            n,
        ) && forall|i: int| 0 <= i < n.2.len() ==> (#[trigger] n.2[i]).0 != "file"@),
{
    reveal_strlit("file");
    reveal_strlit("finding");
    reveal_strlit("recommendation");
    assert("file"@.len() == 4 && "finding"@.len() == 7 && "recommendation"@.len() == 14);
}

/// Two different commands never report the same start event.
pub proof fn law_start_events_distinct(k1: CommandKind, t1: Seq<char>, k2: CommandKind, t2: Seq<char>)
    requires
        k1 != k2,
        spec_start_notice(k1, t1) is Some,
        spec_start_notice(k2, t2) is Some,
    ensures
        (spec_start_notice(k1, t1)->0).0 != (spec_start_notice(k2, t2)->0).0,
{
    reveal_strlit("scan_started");
    reveal_strlit("audit_deps_started");
    reveal_strlit("check_secrets_started");
    reveal_strlit("report_generated");
    reveal_strlit("predict_critical_started");
    reveal_strlit("risk_assess_started");
    reveal_strlit("churn_report_started");
    assert("scan_started"@.len() == 12);
    assert("audit_deps_started"@.len() == 18);
    assert("check_secrets_started"@.len() == 21);
    assert("report_generated"@.len() == 16);
    assert("predict_critical_started"@.len() == 24);
    assert("risk_assess_started"@.len() == 19);
    assert("churn_report_started"@.len() == 20);
}

fn notice(event_type: &str, payload: Vec<(String, String)>) -> (n: Notice)
    ensures
        n.event_type@ == event_type@,
        n.severity@ == "info"@,
        n.payload@ == payload@,
{
    Notice { event_type: String::from_str(event_type), severity: String::from_str("info"), payload }
}

/// The event reported when a command starts; none for `status` and for an
/// unknown action.
pub fn start_notice(kind: CommandKind, target: &str) -> (r: Option<Notice>)
    ensures
        match r {
            Some(n) => spec_start_notice(kind, target@) == Some(notice_view(n)),
            None => spec_start_notice(kind, target@) is None,
        },
{
    match kind {
        CommandKind::Scan => Some(
            notice("scan_started", build_analysis_payload("Escaneo iniciado por Cerebro", Some(target), None)),
        ),
        CommandKind::AuditDeps => Some(
            notice(
                "audit_deps_started",
                build_analysis_payload(
                    "Auditoría de dependencias iniciada",
                    None,
                    Some("Ejecutar 'cargo audit' manualmente para ver vulnerabilidades"),
                ),
            ),
        ),
        CommandKind::CheckSecrets => Some(
            notice(
                "check_secrets_started",
                build_analysis_payload(
                    "Verificación de secretos iniciada",
                    Some(target),
                    Some("Revisar archivos .env y configuraciones"),
                ),
            ),
        ),
        CommandKind::Report => Some(
            notice(
                "report_generated",
                build_analysis_payload(
                    "Reporte de seguridad generado",
                    None,
                    Some("Ver análisis histórico con 'warden .'"),
                ),
            ),
        ),
        CommandKind::PredictCritical => {
            let mut finding = String::from_str("Predicción de críticos iniciada para ");
            finding.append(target);
            Some(
                notice(
                    "predict_critical_started",
                    build_analysis_payload(
                        finding.as_str(),
                        Some(target),
                        Some("Analizando 30 días adelante con threshold 0.5"),
                    ),
                ),
            )
        },
        CommandKind::RiskAssess => {
            let mut finding = String::from_str("Evaluación de riesgos iniciada para ");
            finding.append(target);
            Some(
                notice(
                    "risk_assess_started",
                    build_analysis_payload(
                        finding.as_str(),
                        Some(target),
                        Some("Calculando scores compuestos: churn × loc × authors × complexity"),
                    ),
                ),
            )
        },
        CommandKind::ChurnReport => Some(
            notice(
                "churn_report_started",
                build_analysis_payload(
                    "Reporte de churn generado para 12 semanas",
                    Some(target),
                    Some("Analizando tendencias semanales y patrones"),
                ),
            ),
        ),
        CommandKind::Status => None,
        CommandKind::Unknown => None,
    }
}

/// The status of the acknowledgement: started commands are `accepted`,
/// finished ones `completed`, a failed analysis `error`, an unknown action
/// `rejected`.
pub open spec fn spec_ack_status(kind: CommandKind, failed: bool) -> Seq<char> {
    match kind {
        CommandKind::Scan => "accepted"@,
        CommandKind::AuditDeps => "accepted"@,
        CommandKind::CheckSecrets => "accepted"@,
        CommandKind::Report => "completed"@,
        CommandKind::Status => "completed"@,
        CommandKind::Unknown => "rejected"@,
        _ => if failed {
            "error"@
        } else {
            "completed"@
        },
    }
}

/// Status of the acknowledgement of a command (`failed` says whether its
/// analysis failed).
pub fn ack_status(kind: CommandKind, failed: bool) -> (s: String)
    ensures
        s@ == spec_ack_status(kind, failed),
        is_analysis(kind) ==> (s@ == "error"@ <==> failed),
{
    proof {
        law_ack_status_tells_outcome(kind, failed);
    }
    match kind {
        CommandKind::Scan => String::from_str("accepted"),
        CommandKind::AuditDeps => String::from_str("accepted"),
        CommandKind::CheckSecrets => String::from_str("accepted"),
        CommandKind::Report => String::from_str("completed"),
        CommandKind::Status => String::from_str("completed"),
        CommandKind::Unknown => String::from_str("rejected"),
        _ => if failed {
            String::from_str("error")
        } else {
            String::from_str("completed")
        },
    }
}

/// Which parts an acknowledgement carries, as (result, error): an unknown
/// action and a failed analysis carry an error and no result; every other
/// command carries a result and no error.
pub open spec fn spec_ack_shape(kind: CommandKind, failed: bool) -> (bool, bool) {
    match kind {
        CommandKind::Unknown => (false, true),
        CommandKind::PredictCritical | CommandKind::RiskAssess | CommandKind::ChurnReport => if failed {
            (false, true)
        } else {
            (true, false)
        },
        _ => (true, false),
    }
}

/// Whether the acknowledgement of a command carries a result and whether it
/// carries an error (`failed` says whether its analysis failed).
pub fn ack_shape(kind: CommandKind, failed: bool) -> (r: (bool, bool))
    ensures
        r == spec_ack_shape(kind, failed),
{
    match kind {
        CommandKind::Unknown => (false, true),
        CommandKind::PredictCritical | CommandKind::RiskAssess | CommandKind::ChurnReport => if failed {
            (false, true)
        } else {
            (true, false)
        },
        _ => (true, false),
    }
}

/// Whether a command analyses the repository before it answers.
pub open spec fn is_analysis(kind: CommandKind) -> bool {
    kind == CommandKind::PredictCritical || kind == CommandKind::RiskAssess || kind == CommandKind::ChurnReport
}

/// The status of an acknowledgement tells its outcome: an analysing command
/// is acknowledged `error` exactly when its analysis failed, and
/// `completed` otherwise; an unknown action, and only that, is `rejected`;
/// the commands that only start work are `accepted`, `report` and `status`
/// are `completed`. The status is `error` exactly when the acknowledgement
/// of a known command carries an error and no result.
pub proof fn law_ack_status_tells_outcome(kind: CommandKind, failed: bool)
    ensures
        is_analysis(kind) ==> (spec_ack_status(kind, failed) == "error"@ <==> failed),
        is_analysis(kind) && !failed ==> spec_ack_status(kind, failed) == "completed"@,
        spec_ack_status(kind, failed) == "rejected"@ <==> kind == CommandKind::Unknown,
        kind == CommandKind::Scan || kind == CommandKind::AuditDeps || kind == CommandKind::CheckSecrets
            ==> spec_ack_status(kind, failed) == "accepted"@,
        kind == CommandKind::Report || kind == CommandKind::Status ==> spec_ack_status(kind, failed)
            == "completed"@,
        spec_ack_status(kind, failed) == "error"@ <==> (kind != CommandKind::Unknown && spec_ack_shape(
            kind,
            failed,
        ) == (false, true)),
{
    reveal_strlit("error");
    reveal_strlit("completed");
    reveal_strlit("accepted");
    reveal_strlit("rejected");
    assert("error"@.len() == 5);
    assert("completed"@.len() == 9);
    assert("accepted"@[0] == 'a' && "rejected"@[0] == 'r');
    assert("error"@ != "completed"@);
    assert("rejected"@ != "accepted"@);
    assert("rejected"@ != "completed"@);
    assert("rejected"@ != "error"@);
    assert("error"@ != "accepted"@);
}

/// Error text for an action the agent does not know.
pub fn rejection_message(action: &str) -> (s: String)
    ensures
        s@ == "Acción '"@ + action@ + "' no reconocida"@,
{
    let mut s = String::from_str("Acción '");
    s.append(action);
    s.append("' no reconocida");
    s
}

/// Event types reported when an analysing command finishes, and when it
/// fails.
pub open spec fn spec_outcome_event(kind: CommandKind, failed: bool) -> Option<Seq<char>> {
    match kind {
        CommandKind::PredictCritical => Some(
            if failed {
                "predict_critical_error"@
            } else {
                "predict_critical_completed"@
            },
        ),
        CommandKind::RiskAssess => Some(
            if failed {
                "risk_assess_error"@
            } else {
                "risk_assess_completed"@
            },
        ),
        CommandKind::ChurnReport => Some(
            if failed {
                "churn_report_error"@
            } else {
                "churn_report_completed"@
            },
        ),
        _ => None,
    }
}

/// The event type reported at the end of an analysing command.
pub fn outcome_event(kind: CommandKind, failed: bool) -> (r: Option<String>)
    ensures
        match r {
            Some(s) => spec_outcome_event(kind, failed) == Some(s@),
            None => spec_outcome_event(kind, failed) is None,
        },
{
    match kind {
        CommandKind::PredictCritical => Some(
            if failed {
                String::from_str("predict_critical_error")
            } else {
                String::from_str("predict_critical_completed")
            },
        ),
        CommandKind::RiskAssess => Some(
            if failed {
                String::from_str("risk_assess_error")
            } else {
                String::from_str("risk_assess_completed")
            },
        ),
        CommandKind::ChurnReport => Some(
            if failed {
                String::from_str("churn_report_error")
            } else {
                String::from_str("churn_report_completed")
            },
        ),
        _ => None,
    }
}

/// The event that ends an analysing command names the command and its
/// outcome: the action with its hyphens written as underscores, then
/// `_error` when the analysis failed and `_completed` when it did not. Other
/// commands report no outcome event.
pub proof fn law_outcome_event_names_command(action: Seq<char>, failed: bool)
    ensures
        ({
            let k = spec_command_kind(action);
            &&& is_analysis(k) ==> (spec_outcome_event(k, failed) matches Some(e) && e == underscored(action) + (
            if failed {
                "_error"@
            } else {
                "_completed"@
            }))
            &&& !is_analysis(k) ==> spec_outcome_event(k, failed) is None
        }),
{
    reveal_strlit("predict-critical");
    reveal_strlit("risk-assess");
    reveal_strlit("churn-report");
    reveal_strlit("predict_critical_error");
    reveal_strlit("predict_critical_completed");
    reveal_strlit("risk_assess_error");
    reveal_strlit("risk_assess_completed");
    reveal_strlit("churn_report_error");
    reveal_strlit("churn_report_completed");
    reveal_strlit("_error");
    reveal_strlit("_completed");
    let k = spec_command_kind(action);
    if k == CommandKind::PredictCritical {
        let name = seq!['p', 'r', 'e', 'd', 'i', 'c', 't', '_', 'c', 'r', 'i', 't', 'i', 'c', 'a', 'l'];
        assert(underscored(action) =~= name);
        assert("predict_critical_error"@ =~= name + "_error"@);
        assert("predict_critical_completed"@ =~= name + "_completed"@);
    } else if k == CommandKind::RiskAssess {
        let name = seq!['r', 'i', 's', 'k', '_', 'a', 's', 's', 'e', 's', 's'];
        assert(underscored(action) =~= name);
        assert("risk_assess_error"@ =~= name + "_error"@);
        assert("risk_assess_completed"@ =~= name + "_completed"@);
    } else if k == CommandKind::ChurnReport {
        let name = seq!['c', 'h', 'u', 'r', 'n', '_', 'r', 'e', 'p', 'o', 'r', 't'];
        assert(underscored(action) =~= name);
        assert("churn_report_error"@ =~= name + "_error"@);
        assert("churn_report_completed"@ =~= name + "_completed"@);
    }
}

/// How the failure of an analysing command is described, before the error.
pub open spec fn spec_failure_prefix(kind: CommandKind) -> Option<Seq<char>> {
    match kind {
        CommandKind::PredictCritical => Some("Error en predicción: "@),
        CommandKind::RiskAssess => Some("Error en evaluación de riesgos: "@),
        CommandKind::ChurnReport => Some("Error en reporte de churn: "@),
        _ => None,
    }
}

/// Describes the failure of an analysing command.
pub fn failure_finding(kind: CommandKind, error: &str) -> (r: Option<String>)
    ensures
        match r {
            Some(s) => spec_failure_prefix(kind) matches Some(p) && s@ == p + error@,
            None => spec_failure_prefix(kind) is None,
        },
{
    let mut s = match kind {
        CommandKind::PredictCritical => String::from_str("Error en predicción: "),
        CommandKind::RiskAssess => String::from_str("Error en evaluación de riesgos: "),
        CommandKind::ChurnReport => String::from_str("Error en reporte de churn: "),
        _ => {
            return None;
        },
    };
    s.append(error);
    Some(s)
}

} // verus!
