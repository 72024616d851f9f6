use vstd::prelude::*;

use crate::text::{concat2, concat3, int_to_string, nat_to_string, spec_int_digits, spec_nat_digits};

verus! {

/// The ways in which a domain rule can refuse an operation.
#[derive(Debug, Clone, PartialEq, Eq)]
pub enum DomainError {
    /// A task ID below zero.
    NegativeTaskId,
    /// A tag ID below zero.
    NegativeTagId,
    /// A task title made only of white space.
    EmptyTitle,
    /// A task title longer than 100 characters.
    TitleTooLong,
    /// A tag name made only of white space.
    EmptyTagName,
    /// A tag name longer than 50 characters.
    TagNameTooLong,
    /// A priority name that is not one of the four priorities.
    InvalidPriority(String),
    /// A status name that is not one of the three statuses.
    InvalidStatus(String),
    /// A status filter word that names no status.
    InvalidFilterValue(String),
    /// A tag that a task already carries.
    DuplicateTag(i32),
    /// A tag that a task does not carry.
    MissingTag(i32),
    /// A task ID that no stored task has.
    TaskNotFound(i32),
    /// A tag ID that no stored tag has.
    TagNotFound(i32),
    /// A stored status name that is not one of the three stored names.
    UnknownStoredStatus(String),
    /// A stored priority name that is not one of the four stored names.
    UnknownStoredPriority(String),
    /// A tag ID given on the command line that no stored tag has.
    UnknownTagId(i32),
    /// A tag that stored tasks still carry: its ID and how many tasks.
    TagInUse(i32, usize),
}

/// The message shown for an error.
pub open spec fn spec_message(e: DomainError) -> Seq<char> {
    match e {
        DomainError::NegativeTaskId => "タスクIDは0以上である必要があります"@,
        DomainError::NegativeTagId => "タグIDは0以上である必要があります"@,
        DomainError::EmptyTitle => "タイトルは空にできません"@,
        DomainError::TitleTooLong => "タイトルは100文字以内にしてください"@,
        DomainError::EmptyTagName => "タグ名は空にできません"@,
        DomainError::TagNameTooLong => "タグ名は50文字以内にしてください"@,
        DomainError::InvalidPriority(s) => "無効な優先度: "@ + s@,
        DomainError::InvalidStatus(s) => "無効なステータス: "@ + s@,
        DomainError::InvalidFilterValue(s) => "無効なフィルタ値: "@ + s@,
        DomainError::DuplicateTag(id) => "タグID "@ + spec_int_digits(id as int) + " は既に追加されています"@,
        DomainError::MissingTag(id) => "タグID "@ + spec_int_digits(id as int) + " は存在しません"@,
        DomainError::TaskNotFound(id) => "タスクが見つかりません: "@ + spec_int_digits(id as int),
        DomainError::TagNotFound(id) => "タグが見つかりません: "@ + spec_int_digits(id as int),
        DomainError::UnknownStoredStatus(s) => "不明なステータス: "@ + s@,
        DomainError::UnknownStoredPriority(s) => "不明な優先度: "@ + s@,
        DomainError::UnknownTagId(id) => "Tag ID does not exist: "@ + spec_int_digits(id as int),
        DomainError::TagInUse(id, n) => "タグID "@ + spec_int_digits(id as int) + "は"@
            + spec_nat_digits(n as nat) + "個のタスクで使用されているため削除できません"@,
    }
}

impl DomainError {
    /// The human-readable message for this error.
    pub fn message(&self) -> (r: String)
        ensures
            r@ == spec_message(*self),
    {
        match self {
            DomainError::NegativeTaskId => "タスクIDは0以上である必要があります".to_string(),
            DomainError::NegativeTagId => "タグIDは0以上である必要があります".to_string(),
            DomainError::EmptyTitle => "タイトルは空にできません".to_string(),
            DomainError::TitleTooLong => "タイトルは100文字以内にしてください".to_string(),
            DomainError::EmptyTagName => "タグ名は空にできません".to_string(),
            DomainError::TagNameTooLong => "タグ名は50文字以内にしてください".to_string(),
            DomainError::InvalidPriority(s) => concat2("無効な優先度: ", s.as_str()),
            DomainError::InvalidStatus(s) => concat2("無効なステータス: ", s.as_str()),
            DomainError::InvalidFilterValue(s) => concat2("無効なフィルタ値: ", s.as_str()),
            DomainError::DuplicateTag(id) => {
                let n = int_to_string(*id as i64);
                concat3("タグID ", n.as_str(), " は既に追加されています")
            },
            DomainError::MissingTag(id) => {
                let n = int_to_string(*id as i64);
                concat3("タグID ", n.as_str(), " は存在しません")
            },
            DomainError::TaskNotFound(id) => {
                let n = int_to_string(*id as i64);
                concat2("タスクが見つかりません: ", n.as_str())
            },
            DomainError::TagNotFound(id) => {
                let n = int_to_string(*id as i64);
                concat2("タグが見つかりません: ", n.as_str())
            },
            DomainError::UnknownStoredStatus(s) => concat2("不明なステータス: ", s.as_str()),
            DomainError::UnknownStoredPriority(s) => concat2("不明な優先度: ", s.as_str()),
            DomainError::UnknownTagId(id) => {
                let n = int_to_string(*id as i64);
                concat2("Tag ID does not exist: ", n.as_str())
            },
            DomainError::TagInUse(id, count) => {
                let a = int_to_string(*id as i64);
                let b = nat_to_string(*count as u128);
                let head = concat3("タグID ", a.as_str(), "は");
                concat3(head.as_str(), b.as_str(), "個のタスクで使用されているため削除できません")
            },
        }
    }
}

} // verus!
