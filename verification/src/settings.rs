//! The payment settings: the single logical configuration row the engine
//! reads, its validation rule, and the built-in defaults.

use vstd::prelude::*;

use crate::error::{PaymentError, PaymentResult};
use crate::student::{PaymentPlan, PaymentPlanConfig};

verus! {

/// The stored configuration row.
#[derive(Clone, Debug)]
pub struct PaymentSettings {
    pub id: i32,
    pub one_time_amount: i32,
    pub monthly_amount: i32,
    pub installment_amount: i32,
    pub installment_interval_months: i32,
    pub reminder_days: i32,
    pub payment_threshold: i32,
    pub updated_at: String,
}

#[derive(Clone, Copy, Debug, PartialEq, Eq, Structural)]
pub struct UpdatePaymentSettingsRequest {
    pub one_time_amount: i32,
    pub monthly_amount: i32,
    pub installment_amount: i32,
    pub installment_interval_months: i32,
    pub reminder_days: i32,
    pub payment_threshold: i32,
}

/// The configuration snapshot handed to other services.
#[derive(Clone, Copy, Debug, PartialEq, Eq, Structural)]
pub struct PaymentConfig {
    pub one_time_amount: i32,
    pub monthly_amount: i32,
    pub installment_amount: i32,
    pub installment_interval_months: i32,
    pub reminder_days: i32,
    pub payment_threshold: i32,
}

/// One entry of the settings change history.
#[derive(Clone, Debug)]
pub struct PaymentSettingsHistoryEntry {
    pub action_type: String,
    pub old_values: Option<String>,
    pub new_values: Option<String>,
    pub timestamp: String,
}

/// What settings validation accepts: positive amounts and threshold of at
/// most 1,000,000, an installment interval of one to twelve months, and a
/// reminder window of at most a year.
pub open spec fn valid_payment_settings(r: UpdatePaymentSettingsRequest) -> bool {
    &&& 0 < r.one_time_amount <= 1_000_000
    &&& 0 < r.monthly_amount <= 1_000_000
    &&& 0 < r.installment_amount <= 1_000_000
    &&& 0 < r.payment_threshold <= 1_000_000
    &&& 1 <= r.installment_interval_months <= 12
    &&& 0 <= r.reminder_days <= 365
}

pub struct PaymentSettingsService;

impl PaymentSettingsService {
    /// Validate a settings update before it is stored.
    pub fn validate_payment_settings(request: &UpdatePaymentSettingsRequest) -> (r: PaymentResult<
        (),
    >)
        ensures
            r is Ok <==> valid_payment_settings(*request),
            r matches Err(e) ==> e is ValidationError,
    {
        if request.one_time_amount <= 0 {
            return Err(
                PaymentError::ValidationError(
                    "One-time amount must be greater than 0".to_owned(),
                ),
            );
        }
        if request.monthly_amount <= 0 {
            return Err(
                PaymentError::ValidationError("Monthly amount must be greater than 0".to_owned()),
            );
        }
        if request.installment_amount <= 0 {
            return Err(
                PaymentError::ValidationError(
                    "Installment amount must be greater than 0".to_owned(),
                ),
            );
        }
        if request.payment_threshold <= 0 {
            return Err(
                PaymentError::ValidationError(
                    "Payment threshold must be greater than 0".to_owned(),
                ),
            );
        }
        if request.installment_interval_months < 1 || request.installment_interval_months > 12 {
            return Err(
                PaymentError::ValidationError(
                    "Installment interval must be between 1 and 12 months".to_owned(),
                ),
            );
        }
        if request.reminder_days < 0 || request.reminder_days > 365 {
            return Err(
                PaymentError::ValidationError(
                    "Reminder days must be between 0 and 365".to_owned(),
                ),
            );
        }
        if request.one_time_amount > 1_000_000 {
            return Err(
                PaymentError::ValidationError("One-time amount is too large".to_owned()),
            );
        }
        if request.monthly_amount > 1_000_000 {
            return Err(PaymentError::ValidationError("Monthly amount is too large".to_owned()));
        }
        if request.installment_amount > 1_000_000 {
            return Err(
                PaymentError::ValidationError("Installment amount is too large".to_owned()),
            );
        }
        if request.payment_threshold > 1_000_000 {
            return Err(
                PaymentError::ValidationError("Payment threshold is too large".to_owned()),
            );
        }
        Ok(())
    }

    /// The built-in default settings, stamped with the given time.
    pub fn default_settings(now: &str) -> (s: PaymentSettings)
        ensures
            s.id == 1,
            s.one_time_amount == 6000,
            s.monthly_amount == 850,
            s.installment_amount == 2850,
            s.installment_interval_months == 3,
            s.reminder_days == 7,
            s.payment_threshold == 6000,
            s.updated_at@ == now@,
    {
        PaymentSettings {
            id: 1,
            one_time_amount: 6000,
            monthly_amount: 850,
            installment_amount: 2850,
            installment_interval_months: 3,
            reminder_days: 7,
            payment_threshold: 6000,
            updated_at: now.to_owned(),
        }
    }

    /// The per-plan amount a plan token selects; an unknown token is a
    /// validation error.
    pub fn get_amount_for_plan(settings: &PaymentSettings, plan_type: &str) -> (r: PaymentResult<
        i32,
    >)
        ensures
            plan_type@ == PaymentPlan::OneTime.token() ==> r == Ok::<i32, PaymentError>(
                settings.one_time_amount,
            ),
            plan_type@ == PaymentPlan::Monthly.token() ==> r == Ok::<i32, PaymentError>(
                settings.monthly_amount,
            ),
            plan_type@ == PaymentPlan::Installment.token() ==> r == Ok::<i32, PaymentError>(
                settings.installment_amount,
            ),
            r is Ok <==> (plan_type@ == PaymentPlan::OneTime.token() || plan_type@
                == PaymentPlan::Monthly.token() || plan_type@ == PaymentPlan::Installment.token()),
            r matches Err(e) ==> e is ValidationError,
    {
        match PaymentPlan::from_str(plan_type) {
            Ok(PaymentPlan::OneTime) => Ok(settings.one_time_amount),
            Ok(PaymentPlan::Monthly) => Ok(settings.monthly_amount),
            Ok(PaymentPlan::Installment) => Ok(settings.installment_amount),
            Err(_) => Err(PaymentError::ValidationError("Unknown payment plan type".to_owned())),
        }
    }

    /// The configuration snapshot other services read from the stored row.
    pub fn get_payment_config(settings: &PaymentSettings) -> (c: PaymentConfig)
        ensures
            c == (PaymentConfig {
                one_time_amount: settings.one_time_amount,
                monthly_amount: settings.monthly_amount,
                installment_amount: settings.installment_amount,
                installment_interval_months: settings.installment_interval_months,
                reminder_days: settings.reminder_days,
                payment_threshold: settings.payment_threshold,
            }),
    {
        PaymentConfig {
            one_time_amount: settings.one_time_amount,
            monthly_amount: settings.monthly_amount,
            installment_amount: settings.installment_amount,
            installment_interval_months: settings.installment_interval_months,
            reminder_days: settings.reminder_days,
            payment_threshold: settings.payment_threshold,
        }
    }

    /// The plan-config view of a settings row, as the calculators take it.
    pub fn as_plan_config(settings: &PaymentSettings) -> (c: PaymentPlanConfig)
        ensures
            c == (PaymentPlanConfig {
                one_time_amount: settings.one_time_amount,
                monthly_amount: settings.monthly_amount,
                installment_amount: settings.installment_amount,
                installment_interval: settings.installment_interval_months,
                reminder_days: settings.reminder_days,
            }),
    {
        PaymentPlanConfig {
            one_time_amount: settings.one_time_amount,
            monthly_amount: settings.monthly_amount,
            installment_amount: settings.installment_amount,
            installment_interval: settings.installment_interval_months,
            reminder_days: settings.reminder_days,
        }
    }
}

/// The application-level settings, with their built-in defaults.
#[derive(Clone, Debug)]
pub struct AppSettings {
    pub payment_threshold: i32,
    pub default_groups: Vec<String>,
    pub enable_audit_log: bool,
    pub language: String,
    pub theme: String,
    pub enable_multi_user: bool,
    pub backup_encryption: bool,
    pub accessibility_mode: bool,
}

pub struct SettingsService;

impl SettingsService {
    /// The built-in application defaults used when no stored value exists.
    pub fn default_settings() -> (s: AppSettings)
        ensures
            s.payment_threshold == 6000,
            s.default_groups@.len() == 3,
            s.default_groups@[0]@ == "Group A"@,
            s.default_groups@[1]@ == "Group B"@,
            s.default_groups@[2]@ == "Group C"@,
            s.enable_audit_log == true,
            s.language@ == "ar"@,
            s.theme@ == "light"@,
            s.enable_multi_user == false,
            s.backup_encryption == false,
            s.accessibility_mode == false,
    {
        let mut groups: Vec<String> = Vec::new();
        groups.push("Group A".to_owned());
        groups.push("Group B".to_owned());
        groups.push("Group C".to_owned());
        AppSettings {
            payment_threshold: 6000,
            default_groups: groups,
            enable_audit_log: true,
            language: "ar".to_owned(),
            theme: "light".to_owned(),
            enable_multi_user: false,
            backup_encryption: false,
            accessibility_mode: false,
        }
    }
}

} // verus!
