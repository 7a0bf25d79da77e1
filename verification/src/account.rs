//! Making sense of what the account service answers.

use vstd::prelude::*;
use vstd::string::StringExecFns;

verus! {

/// What the account service says about a registration.
#[derive(Clone, Debug, PartialEq, Eq)]
pub struct RegisterApiResponse {
    pub success: bool,
    pub id: Option<String>,
    pub message: String,
}

/// What the player is told about a registration.
#[derive(Clone, Debug, PartialEq, Eq)]
pub struct RegisterResponse {
    pub success: bool,
    pub message: String,
    pub user_id: Option<String>,
}

/// A text that may be missing, as a mathematical value.
pub open spec fn text_view(text: Option<String>) -> Option<Seq<char>> {
    match text {
        Some(text) => Some(text@),
        None => None,
    }
}

/// What the player is told, as plain mathematical values.
pub struct RegistrationView {
    pub success: bool,
    pub message: Seq<char>,
    pub user_id: Option<Seq<char>>,
}

impl View for RegisterResponse {
    type V = RegistrationView;

    open spec fn view(&self) -> RegistrationView {
        RegistrationView {
            success: self.success,
            message: self.message@,
            user_id: text_view(self.user_id),
        }
    }
}

/// The message for an accepted registration whose answer cannot be read:
/// it names the fault and quotes the answer.
pub open spec fn unreadable_answer(fault: Seq<char>, body: Seq<char>) -> Seq<char> {
    "解析成功响应失败: "@ + fault + " - 响应内容: "@ + body
}

/// What a registration comes to.
///
/// `accepted` says whether the service answered with a status of success,
/// `answer` is its answer as far as it could be read, else the fault found in
/// it, and `body` is the answer as it arrived.
pub open spec fn registration(
    accepted: bool,
    answer: Result<RegisterApiResponse, String>,
    body: Seq<char>,
) -> Result<RegistrationView, Seq<char>> {
    match answer {
        Ok(said) => if accepted {
            Ok(
                RegistrationView {
                    success: said.success,
                    message: said.message@,
                    user_id: text_view(said.id),
                },
            )
        } else {
            Ok(RegistrationView { success: false, message: said.message@, user_id: None })
        },
        Err(fault) => if accepted {
            Err(unreadable_answer(fault@, body))
        } else {
            Ok(RegistrationView { success: false, message: body, user_id: None })
        },
    }
}

/// Decides what a registration comes to.
///
/// An accepted registration is reported as the service describes it, and it
/// is an error when the description cannot be read. A refused one is never
/// an error: it is reported as a failure, with the service's message where
/// there is one and with the whole answer where there is none.
pub fn register_outcome(
    accepted: bool,
    answer: Result<RegisterApiResponse, String>,
    body: String,
) -> (outcome: Result<RegisterResponse, String>)
    ensures
        match outcome {
            Ok(response) => registration(accepted, answer, body@) == Ok::<
                RegistrationView,
                Seq<char>,
            >(response@),
            Err(message) => registration(accepted, answer, body@) == Err::<
                RegistrationView,
                Seq<char>,
            >(message@),
        },
{
    match answer {
        Ok(said) => if accepted {
            Ok(RegisterResponse { success: said.success, message: said.message, user_id: said.id })
        } else {
            Ok(RegisterResponse { success: false, message: said.message, user_id: None })
        },
        Err(fault) => if accepted {
            let message = String::from_str("解析成功响应失败: ");
            let message = message.concat(fault.as_str());
            let message = message.concat(" - 响应内容: ");
            Err(message.concat(body.as_str()))
        } else {
            Ok(RegisterResponse { success: false, message: body, user_id: None })
        },
    }
}

/// The message for a successful answer that carries no user data.
pub open spec fn no_user_data() -> Seq<char> {
    "用户数据为空"@
}

/// The message for a failure that the service did not explain.
pub open spec fn unexplained_failure() -> Seq<char> {
    "获取用户数据失败"@
}

/// Decides what a request for user data comes to: the data when the service
/// reports success and sends some, else an error with the service's own
/// message where it gave one.
pub fn user_data_outcome<T>(success: bool, data: Option<T>, message: Option<String>) -> (outcome:
    Result<T, String>)
    ensures
        match outcome {
            Ok(found) => success && data == Some(found),
            Err(reason) => if success {
                data is None && reason@ == no_user_data()
            } else {
                reason@ == match message {
                    Some(given) => given@,
                    None => unexplained_failure(),
                }
            },
        },
{
    if success {
        match data {
            Some(found) => Ok(found),
            None => Err("用户数据为空".to_owned()),
        }
    } else {
        match message {
            Some(given) => Err(given),
            None => Err("获取用户数据失败".to_owned()),
        }
    }
}

} // verus!
