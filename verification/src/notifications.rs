//! Notifications: what is stored and shown of them, and the notifications
//! that a review gives rise to.
use crate::ids::{hyphenated, id_to_string};
use crate::step::text_view;
use crate::text::concat_texts;
use crate::time::{rfc3339, Timestamp};
use vstd::prelude::*;

verus! {

/// A notification as stored.
#[derive(Debug)]
pub struct Notification {
    pub id: u128,
    pub user_id: u128,
    pub notification_type: String,
    pub title: String,
    pub message: String,
    pub related_entity_type: Option<String>,
    pub related_entity_id: Option<String>,
    pub is_read: bool,
    pub created_at: Timestamp,
}

/// A notification as shown to clients.
#[derive(Debug)]
pub struct NotificationResponse {
    pub id: String,
    pub type_: String,
    pub title: String,
    pub message: String,
    pub related_entity_type: Option<String>,
    pub related_entity_id: Option<String>,
    pub is_read: bool,
    pub created_at: String,
}

/// A notification that is to be stored.
#[derive(Debug, PartialEq, Eq)]
pub struct CreateNotificationRequest {
    pub user_id: u128,
    pub notification_type: String,
    pub title: String,
    pub message: String,
    pub related_entity_type: Option<String>,
    pub related_entity_id: Option<String>,
}

#[derive(Debug)]
pub struct NotificationListResponse {
    pub notifications: Vec<NotificationResponse>,
    pub total: i64,
    pub unread_count: i64,
}

/// The page of notifications that a client asks for.
#[derive(Debug, Clone, Copy, PartialEq, Eq, Structural)]
pub struct NotificationQuery {
    pub page: i64,
    pub page_size: i64,
    pub unread_only: bool,
}

/// The page that is shown where a client names none.
pub fn default_page() -> (page: i64)
    ensures
        page == 1,
{
    1
}

/// The number of notifications on a page where a client names none.
pub fn default_page_size() -> (size: i64)
    ensures
        size == 20,
{
    20
}

impl Default for NotificationQuery {
    fn default() -> (query: NotificationQuery)
        ensures
            query == (NotificationQuery { page: 1, page_size: 20, unread_only: false }),
    {
        NotificationQuery {
            page: default_page(),
            page_size: default_page_size(),
            unread_only: false,
        }
    }
}

impl NotificationResponse {
    /// What is shown of a notification, given the texts of its identifier
    /// and of its time.
    pub fn from_parts(notification: Notification, id: String, created_at: String) -> (shown:
        NotificationResponse)
        ensures
            shown.id@ == id@,
            shown.type_@ == notification.notification_type@,
            shown.title@ == notification.title@,
            shown.message@ == notification.message@,
            text_view(shown.related_entity_type) == text_view(notification.related_entity_type),
            text_view(shown.related_entity_id) == text_view(notification.related_entity_id),
            shown.is_read == notification.is_read,
            shown.created_at@ == created_at@,
    {
        NotificationResponse {
            id,
            type_: notification.notification_type,
            title: notification.title,
            message: notification.message,
            related_entity_type: notification.related_entity_type,
            related_entity_id: notification.related_entity_id,
            is_read: notification.is_read,
            created_at,
        }
    }

    /// What is shown of a notification: the identifier in hyphenated form
    /// and the time in the form of RFC 3339; nothing where the time lies
    /// outside the range of dates.
    pub fn from_notification(notification: Notification) -> (shown: Option<NotificationResponse>)
        ensures
            shown.is_some() == rfc3339(
                notification.created_at.secs,
                notification.created_at.nanos,
            ).is_some(),
            shown.is_some() ==> shown.unwrap().id@ == hyphenated(notification.id),
            shown.is_some() ==> shown.unwrap().type_@ == notification.notification_type@,
            shown.is_some() ==> shown.unwrap().title@ == notification.title@,
            shown.is_some() ==> shown.unwrap().message@ == notification.message@,
            shown.is_some() ==> text_view(shown.unwrap().related_entity_type) == text_view(
                notification.related_entity_type,
            ),
            shown.is_some() ==> text_view(shown.unwrap().related_entity_id) == text_view(
                notification.related_entity_id,
            ),
            shown.is_some() ==> shown.unwrap().is_read == notification.is_read,
            shown.is_some() ==> Some(shown.unwrap().created_at@) == rfc3339(
                notification.created_at.secs,
                notification.created_at.nanos,
            ),
    {
        let created_at = match notification.created_at.to_rfc3339() {
            Some(text) => text,
            None => {
                return None;
            },
        };
        let id = id_to_string(notification.id);
        Some(NotificationResponse::from_parts(notification, id, created_at))
    }
}

/// The notification that tells the author of the test case `case_id` that
/// `reviewer_name` approved it.
pub fn review_approval_notification(creator_id: u128, reviewer_name: &str, case_id: &str) -> (request:
    CreateNotificationRequest)
    ensures
        request.user_id == creator_id,
        request.notification_type@ == "review_approved"@,
        request.title@ == "Test Case Approved"@,
        request.message@ == "Your test case "@ + case_id@ + " has been approved by "@
            + reviewer_name@,
        text_view(request.related_entity_type) == Some("test_case"@),
        text_view(request.related_entity_id) == Some(case_id@),
{
    let start = concat_texts("Your test case ", case_id);
    let middle = concat_texts(start.as_str(), " has been approved by ");
    let message = concat_texts(middle.as_str(), reviewer_name);
    CreateNotificationRequest {
        user_id: creator_id,
        notification_type: "review_approved".to_owned(),
        title: "Test Case Approved".to_owned(),
        message,
        related_entity_type: Some("test_case".to_owned()),
        related_entity_id: Some(case_id.to_owned()),
    }
}

/// The notification that tells the author of the test case `case_id` that
/// `reviewer_name` asks for a revision.
pub fn review_request_edit_notification(
    creator_id: u128,
    reviewer_name: &str,
    case_id: &str,
) -> (request: CreateNotificationRequest)
    ensures
        request.user_id == creator_id,
        request.notification_type@ == "review_needs_revision"@,
        request.title@ == "Test Case Needs Revision"@,
        request.message@ == "Your test case "@ + case_id@ + " needs revision. Reviewed by "@
            + reviewer_name@,
        text_view(request.related_entity_type) == Some("test_case"@),
        text_view(request.related_entity_id) == Some(case_id@),
{
    let start = concat_texts("Your test case ", case_id);
    let middle = concat_texts(start.as_str(), " needs revision. Reviewed by ");
    let message = concat_texts(middle.as_str(), reviewer_name);
    CreateNotificationRequest {
        user_id: creator_id,
        notification_type: "review_needs_revision".to_owned(),
        title: "Test Case Needs Revision".to_owned(),
        message,
        related_entity_type: Some("test_case".to_owned()),
        related_entity_id: Some(case_id.to_owned()),
    }
}

/// Whether the user `user_id` may read and mark the notification.
pub fn owns_notification(notification: &Notification, user_id: u128) -> (owns: bool)
    ensures
        owns == (notification.user_id == user_id),
{
    notification.user_id == user_id
}

} // verus!
