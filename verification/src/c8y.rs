//! Typed values exchanged with a cloud mapper.
//!
//! The core never speaks the cloud's wire format; these are the plain
//! shapes a mapper consumes and produces at its boundary: identity
//! responses, alarm classification, and software-list items.

use crate::text::str_eq;
use vstd::prelude::*;

verus! {

/// A managed-object reference returned by the cloud.
#[derive(Debug)]
pub struct C8yManagedObject {
    pub id: String,
}

/// The id under which the cloud registered an event.
#[derive(Debug)]
pub struct C8yEventResponse {
    pub id: String,
}

/// The cloud's answer when an external id is resolved to an internal one.
#[derive(Debug)]
pub struct InternalIdResponse {
    managed_object: C8yManagedObject,
    external_id: String,
}

impl InternalIdResponse {
    /// The internal id this response carries.
    pub closed spec fn spec_id(self) -> Seq<char> {
        self.managed_object.id@
    }

    /// The external id this response answers for.
    pub closed spec fn spec_external_id(self) -> Seq<char> {
        self.external_id@
    }

    pub fn new(id: &str, external_id: &str) -> (r: InternalIdResponse)
        ensures
            r.spec_id() == id@,
            r.spec_external_id() == external_id@,
    {
        InternalIdResponse {
            managed_object: C8yManagedObject { id: id.to_owned() },
            external_id: external_id.to_owned(),
        }
    }

    pub fn id(&self) -> (r: String)
        ensures
            r@ == self.spec_id(),
    {
        self.managed_object.id.clone()
    }
}

/// The external source a cloud record is attributed to.
#[derive(Debug, PartialEq)]
pub struct SourceInfo {
    pub id: String,
    pub source_type: String,
}

impl SourceInfo {
    pub fn new(id: String, source_type: String) -> (r: SourceInfo)
        ensures
            r.id == id,
            r.source_type == source_type,
    {
        SourceInfo { id, source_type }
    }
}

/// The source fragment naming a child device or service in the cloud.
pub fn make_c8y_source_fragment(source_name: &str) -> (r: SourceInfo)
    ensures
        r.id@ == source_name@,
        r.source_type@ == "c8y_Serial"@,
{
    SourceInfo::new(source_name.to_owned(), String::from_str("c8y_Serial"))
}

/// Severity of a cloud alarm.
#[derive(Clone, Copy, Debug, PartialEq, Eq, Structural)]
pub enum AlarmSeverity {
    Critical,
    Major,
    Minor,
    Warning,
}

/// Errors of the alarm conversion.
#[derive(Debug)]
pub enum C8yAlarmError {
    UnsupportedAlarmSeverity(String),
    UnsupportedDeviceTopicId(String),
}

impl AlarmSeverity {
    /// The severity named by `s`, if any.
    pub open spec fn spec_parse(s: Seq<char>) -> Option<AlarmSeverity> {
        if s == "critical"@ {
            Some(AlarmSeverity::Critical)
        } else if s == "major"@ {
            Some(AlarmSeverity::Major)
        } else if s == "minor"@ {
            Some(AlarmSeverity::Minor)
        } else if s == "warning"@ {
            Some(AlarmSeverity::Warning)
        } else {
            None
        }
    }

    /// Parse a lowercase severity name; an unknown name is reported back
    /// in the error.
    pub fn try_from(value: &str) -> (r: Result<AlarmSeverity, C8yAlarmError>)
        ensures
            r matches Ok(a) ==> Self::spec_parse(value@) == Some(a),
            r is Err <==> Self::spec_parse(value@) is None,
            r matches Err(e) ==> e matches C8yAlarmError::UnsupportedAlarmSeverity(t) && t@
                == value@,
    {
        if str_eq(value, "critical") {
            Ok(AlarmSeverity::Critical)
        } else if str_eq(value, "major") {
            Ok(AlarmSeverity::Major)
        } else if str_eq(value, "minor") {
            Ok(AlarmSeverity::Minor)
        } else if str_eq(value, "warning") {
            Ok(AlarmSeverity::Warning)
        } else {
            Err(C8yAlarmError::UnsupportedAlarmSeverity(value.to_owned()))
        }
    }

    /// The uppercase wire name of the severity.
    pub open spec fn spec_name(self) -> Seq<char> {
        match self {
            AlarmSeverity::Critical => "CRITICAL"@,
            AlarmSeverity::Major => "MAJOR"@,
            AlarmSeverity::Minor => "MINOR"@,
            AlarmSeverity::Warning => "WARNING"@,
        }
    }

    pub fn as_str(self) -> (r: &'static str)
        ensures
            r@ == self.spec_name(),
    {
        match self {
            AlarmSeverity::Critical => "CRITICAL",
            AlarmSeverity::Major => "MAJOR",
            AlarmSeverity::Minor => "MINOR",
            AlarmSeverity::Warning => "WARNING",
        }
    }
}

/// What kind of entity an alarm source is.
#[derive(Clone, Copy, Debug, PartialEq, Eq, Structural)]
pub enum EntityType {
    MainDevice,
    ChildDevice,
    Service,
}

/// The cloud shape that clears an alarm.
#[derive(Debug, PartialEq)]
pub struct C8yClearAlarm {
    /// Alarm type; defaults to `ThinEdgeAlarm` when the alarm names none.
    pub alarm_type: String,
    /// `None` for the main device, the source fragment otherwise.
    pub source: Option<SourceInfo>,
}

/// The source fragment for an alarm: none for the main device, the
/// external id for a child device or service.
pub fn convert_source(external_id: &str, entity_type: &EntityType) -> (r: Option<SourceInfo>)
    ensures
        r is None <==> entity_type == EntityType::MainDevice,
        r matches Some(s) ==> s.id@ == external_id@ && s.source_type@ == "c8y_Serial"@,
{
    match entity_type {
        EntityType::MainDevice => None,
        EntityType::ChildDevice => Some(make_c8y_source_fragment(external_id)),
        EntityType::Service => Some(make_c8y_source_fragment(external_id)),
    }
}

/// An empty alarm type falls back to the default `ThinEdgeAlarm`.
pub fn convert_alarm_type(alarm_type: &str) -> (r: String)
    ensures
        alarm_type@.len() == 0 ==> r@ == "ThinEdgeAlarm"@,
        alarm_type@.len() > 0 ==> r@ == alarm_type@,
{
    if alarm_type.is_empty() {
        String::from_str("ThinEdgeAlarm")
    } else {
        alarm_type.to_owned()
    }
}

/// The severity of an alarm's data: the parsed name, or `Minor` when the
/// data names none or an unknown one.
pub fn convert_severity(severity: &Option<String>) -> (r: AlarmSeverity)
    ensures
        severity is None ==> r == AlarmSeverity::Minor,
        severity matches Some(s) ==> r == (match AlarmSeverity::spec_parse(s@) {
            Some(a) => a,
            None => AlarmSeverity::Minor,
        }),
{
    match severity {
        Some(s) => match AlarmSeverity::try_from(s.as_str()) {
            Ok(a) => a,
            Err(_) => AlarmSeverity::Minor,
        },
        None => AlarmSeverity::Minor,
    }
}

/// The text of an alarm: its own, or its (already defaulted) type.
pub fn convert_text(text: &Option<String>, alarm_type: &str) -> (r: String)
    ensures
        text matches Some(t) ==> r@ == t@,
        text is None ==> r@ == alarm_type@,
{
    match text {
        Some(t) => t.clone(),
        None => alarm_type.to_owned(),
    }
}

/// The clear-alarm record for an alarm without data: the defaulted alarm
/// type and the source fragment of its entity.
pub fn clear_alarm(alarm_type: &str, external_id: &str, entity_type: &EntityType) -> (r:
    C8yClearAlarm)
    ensures
        alarm_type@.len() == 0 ==> r.alarm_type@ == "ThinEdgeAlarm"@,
        alarm_type@.len() > 0 ==> r.alarm_type@ == alarm_type@,
        r.source is None <==> entity_type == EntityType::MainDevice,
        r.source matches Some(s) ==> s.id@ == external_id@ && s.source_type@ == "c8y_Serial"@,
{
    C8yClearAlarm {
        alarm_type: convert_alarm_type(alarm_type),
        source: convert_source(external_id, entity_type),
    }
}

/// The type and text of a cloud event derived from an agent event named
/// `name`: the payload's own `type` member wins unless it is absent or
/// empty, and the text falls back to the chosen type when the payload
/// carries none. The caller supplies the timestamp where the payload
/// carries none, since only it can read the clock.
pub fn convert_event_fields(
    name: &str,
    payload_type: &Option<String>,
    payload_text: &Option<String>,
) -> (r: (String, String))
    ensures
        ({
            let chosen_type = match payload_type {
                Some(t) => {
                    if t@.len() > 0 {
                        t@
                    } else {
                        name@
                    }
                },
                None => name@,
            };
            &&& r.0@ == chosen_type
            &&& r.1@ == (match payload_text {
                Some(text) => text@,
                None => chosen_type,
            })
        }),
{
    let event_type = match payload_type {
        Some(t) => {
            if !t.as_str().is_empty() {
                t.clone()
            } else {
                name.to_owned()
            }
        },
        None => name.to_owned(),
    };
    let text = match payload_text {
        Some(text) => text.clone(),
        None => event_type.clone(),
    };
    (event_type, text)
}

/// One installed software module, as the agent reports it.
#[derive(Debug, PartialEq)]
pub struct SoftwareModule {
    pub module_type: Option<String>,
    pub name: String,
    pub version: Option<String>,
    pub url: Option<String>,
    pub file_path: Option<String>,
}

impl SoftwareModule {
    /// The type reported for modules that name none.
    pub fn default_type() -> (r: String)
        ensures
            r@ == "default"@,
    {
        String::from_str("default")
    }
}

/// One software module in the cloud's software-list shape.
#[derive(Debug, PartialEq)]
pub struct C8ySoftwareModuleItem {
    pub name: String,
    pub version: Option<String>,
    pub software_type: String,
    pub url: Option<String>,
}

/// Whether `item` is the cloud shape of `module`: name and version
/// kept, a missing type reported as the default type, a missing url as
/// an empty one.
pub open spec fn spec_item_of_module(module: SoftwareModule, item: C8ySoftwareModuleItem) -> bool {
    &&& item.name == module.name
    &&& item.version == module.version
    &&& (match module.module_type {
        Some(t) => item.software_type == t,
        None => item.software_type@ == "default"@,
    })
    &&& (match module.url {
        Some(u) => item.url == Some(u),
        None => item.url matches Some(u) && u@ == Seq::<char>::empty(),
    })
}

impl C8ySoftwareModuleItem {
    /// The cloud shape of one module: a module without a url is reported
    /// with an empty one, and a module without a type with the default
    /// type.
    pub fn from_module(module: SoftwareModule) -> (r: C8ySoftwareModuleItem)
        ensures
            spec_item_of_module(module, r),
    {
        let url: Option<String> = match module.url {
            Some(u) => Some(u),
            None => Some(String::new()),
        };
        let software_type: String = match module.module_type {
            Some(t) => t,
            None => SoftwareModule::default_type(),
        };
        C8ySoftwareModuleItem { name: module.name, version: module.version, software_type, url }
    }

    /// The cloud's software-list shape of a whole module list: one item
    /// per module, in order.
    pub fn from_modules(modules: Vec<SoftwareModule>) -> (r: Vec<C8ySoftwareModuleItem>)
        ensures
            r@.len() == modules@.len(),
            forall|j: int|
                0 <= j < modules@.len() ==> spec_item_of_module(
                    modules@[j],
                    #[trigger] r@[j],
                ),
    {
        let ghost orig = modules@;
        let mut remaining = modules;
        let mut items: Vec<C8ySoftwareModuleItem> = Vec::new();
        proof {
            assert(remaining@ =~= orig.skip(0));
        }
        while remaining.len() > 0
            invariant
                items@.len() + remaining@.len() == orig.len(),
                remaining@ == orig.skip(items@.len() as int),
                forall|j: int|
                    0 <= j < items@.len() ==> spec_item_of_module(orig[j], #[trigger] items@[j]),
            decreases remaining@.len(),
        {
            let module = remaining.remove(0);
            proof {
                assert(module == orig[items@.len() as int]);
                assert(remaining@ =~= orig.skip(items@.len() as int + 1));
            }
            items.push(Self::from_module(module));
        }
        items
    }
}

} // verus!
