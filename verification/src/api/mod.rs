//! Log wire types.
pub mod annotation;
pub mod audit_producer;
pub mod audit_result;
pub mod contextualized_user;
pub mod diagnostic;
pub mod endpoint;
pub mod organization;
pub mod organization_id;
pub mod outside;
pub mod plain;
pub mod record;
pub mod span;
pub mod union;
pub mod thread_dump_v1;
pub mod user_id;
pub mod wrapped_log_v1;

pub use self::annotation::Annotation;
pub use self::audit_producer::AuditProducer;
pub use self::audit_result::AuditResult;
pub use self::endpoint::Endpoint;
pub use self::span::Span;
pub use self::contextualized_user::ContextualizedUser;
pub use self::organization::Organization;
pub use self::organization_id::OrganizationId;
pub use self::thread_dump_v1::{StackFrameV1, ThreadDumpV1, ThreadInfoV1};
pub use self::user_id::UserId;
pub use self::diagnostic::{Diagnostic, DiagnosticVariant, GenericDiagnostic};
pub use self::wrapped_log_v1::WrappedLogV1;
