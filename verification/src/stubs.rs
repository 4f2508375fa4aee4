//! Deliberate no-op handlers: offset commits, consumer-group and
//! transform-module operations are unimplemented in this gateway and answer
//! with fixed success or empty payloads, touching no backend state. The
//! fixed replies are an explicit contract — a later real implementation
//! replaces these bodies without changing the dispatch around them. The
//! health probe answers without consulting the backend at all.

use vstd::prelude::*;

verus! {

/// Reply to an offset-commit call.
pub struct CommitOffsetReply {
    pub success: bool,
    pub error: String,
}

/// Reply to a list-consumer-groups call.
pub struct ListConsumerGroupsReply {
    pub groups: Vec<String>,
    pub error: String,
}

/// Reply to a describe-consumer-group call.
pub struct DescribeConsumerGroupReply {
    pub group_id: String,
    pub offsets: Vec<i64>,
    pub error: String,
}

/// Reply to a create-transform-module call.
pub struct CreateSmartModuleReply {
    pub success: bool,
    pub error: String,
}

/// Reply to a delete-transform-module call.
pub struct DeleteSmartModuleReply {
    pub success: bool,
    pub error: String,
}

/// Reply to a list-transform-modules call.
pub struct ListSmartModulesReply {
    pub modules: Vec<String>,
    pub error: String,
}

/// Reply to a describe-transform-module call.
pub struct DescribeSmartModuleReply {
    pub module_spec: Option<String>,
    pub error: String,
}

/// Reply to an update-transform-module call.
pub struct UpdateSmartModuleReply {
    pub success: bool,
    pub error: String,
}

/// Reply to a health probe.
pub struct HealthCheckReply {
    pub ok: bool,
    pub message: String,
}

/// Offset tracking is unimplemented: every commit is acknowledged with fixed
/// success and no backend interaction.
pub fn commit_offset() -> (r: CommitOffsetReply)
    ensures
        r.success,
        r.error@ == Seq::<char>::empty(),
{
    CommitOffsetReply { success: true, error: String::new() }
}

/// Consumer-group listing is unimplemented: the reply is always empty.
pub fn list_consumer_groups() -> (r: ListConsumerGroupsReply)
    ensures
        r.groups@ == Seq::<String>::empty(),
        r.error@ == Seq::<char>::empty(),
{
    ListConsumerGroupsReply { groups: Vec::new(), error: String::new() }
}

/// Consumer-group description is unimplemented: every field stays at its
/// zero value.
pub fn describe_consumer_group() -> (r: DescribeConsumerGroupReply)
    ensures
        r.group_id@ == Seq::<char>::empty(),
        r.offsets@ == Seq::<i64>::empty(),
        r.error@ == Seq::<char>::empty(),
{
    DescribeConsumerGroupReply { group_id: String::new(), offsets: Vec::new(), error: String::new() }
}

/// Transform-module creation is unimplemented: fixed success, no backend
/// interaction.
pub fn create_smart_module() -> (r: CreateSmartModuleReply)
    ensures
        r.success,
        r.error@ == Seq::<char>::empty(),
{
    CreateSmartModuleReply { success: true, error: String::new() }
}

/// Transform-module deletion is unimplemented: fixed success, no backend
/// interaction.
pub fn delete_smart_module() -> (r: DeleteSmartModuleReply)
    ensures
        r.success,
        r.error@ == Seq::<char>::empty(),
{
    DeleteSmartModuleReply { success: true, error: String::new() }
}

/// Transform-module listing is unimplemented: the reply is always empty.
pub fn list_smart_modules() -> (r: ListSmartModulesReply)
    ensures
        r.modules@ == Seq::<String>::empty(),
        r.error@ == Seq::<char>::empty(),
{
    ListSmartModulesReply { modules: Vec::new(), error: String::new() }
}

/// Transform-module description is unimplemented: no specification is
/// returned.
pub fn describe_smart_module() -> (r: DescribeSmartModuleReply)
    ensures
        r.module_spec is None,
        r.error@ == Seq::<char>::empty(),
{
    DescribeSmartModuleReply { module_spec: None, error: String::new() }
}

/// Transform-module update is unimplemented: fixed success, no backend
/// interaction.
pub fn update_smart_module() -> (r: UpdateSmartModuleReply)
    ensures
        r.success,
        r.error@ == Seq::<char>::empty(),
{
    UpdateSmartModuleReply { success: true, error: String::new() }
}

/// Health probes never reach the backend: the reply is fixed whatever the
/// backend's state.
pub fn health_check() -> (r: HealthCheckReply)
    ensures
        r.ok,
        r.message@ == "ok"@,
{
    HealthCheckReply { ok: true, message: "ok".to_string() }
}

} // verus!
