use aura::spotlight::{
    app_catalog, clean_math_input, launch_target, launch_target_lowered, parse_math, suggested_apps,
    suggested_apps_lowered, MathExpr,
};

fn render(e: &MathExpr) -> String {
    match e {
        MathExpr::Number(t) => t.clone(),
        MathExpr::Apply { op, left, right } => {
            let l = left.as_ref().map(|l| render(l)).unwrap_or_default();
            format!("{}{}{}", l, op, render(right))
        }
    }
}

fn eval(e: &MathExpr) -> Option<f64> {
    match e {
        MathExpr::Number(t) => t.parse::<f64>().ok(),
        MathExpr::Apply { op, left, right } => {
            let l = match left {
                Some(l) => eval(l)?,
                None => 0.0,
            };
            let r = eval(right)?;
            match op {
                '+' => Some(l + r),
                '-' => Some(l - r),
                '*' => Some(l * r),
                _ => if r == 0.0 { None } else { Some(l / r) },
            }
        }
    }
}

#[test]
fn cleans_arithmetic_input() {
    assert_eq!(clean_math_input(" 2 + 2 * 5 "), Some("2+2*5".to_string()));
    assert_eq!(clean_math_input("firefox"), None);
    assert_eq!(clean_math_input("   "), None);
    assert_eq!(clean_math_input(""), None);
    assert_eq!(clean_math_input("1.5/3"), Some("1.5/3".to_string()));
    assert_eq!(clean_math_input("2^3"), None);
}

#[test]
fn readme_example_two_plus_two_times_five() {
    let e = parse_math("2+2*5");
    match &e {
        MathExpr::Apply { op: '+', left: Some(l), right } => {
            assert!(matches!(&**l, MathExpr::Number(t) if t == "2"));
            assert!(matches!(&**right, MathExpr::Apply { op: '*', .. }));
        }
        other => panic!("unexpected {:?}", other),
    }
    assert_eq!(eval(&e), Some(12.0));
}

#[test]
fn operators_group_to_the_left() {
    assert_eq!(eval(&parse_math("10-2-3")), Some(5.0));
    assert_eq!(eval(&parse_math("8/4/2")), Some(1.0));
    assert_eq!(eval(&parse_math("-5")), Some(-5.0));
    assert_eq!(eval(&parse_math("1/0")), None);
    assert_eq!(eval(&parse_math("2*")), None);
    assert_eq!(eval(&parse_math("1.2.3")), None);
}

#[test]
fn parsing_loses_nothing() {
    for s in ["2+2*5", "-5", "1--2", "3*/4", "", "7", "1+2-3*4/5"] {
        assert_eq!(render(&parse_math(s)), s);
    }
}

#[test]
fn launch_matches_executable_or_name_prefix() {
    let apps = app_catalog();
    assert_eq!(apps.len(), 5);
    assert_eq!(launch_target(&apps, "firefox"), Some(0));
    assert_eq!(launch_target(&apps, "FireFox"), Some(0));
    assert_eq!(launch_target(&apps, "alacritty"), Some(1));
    assert_eq!(launch_target(&apps, "xfce"), Some(2));
    assert_eq!(launch_target(&apps, "calc"), Some(3));
    assert_eq!(launch_target(&apps, "thunar"), Some(2));
    assert_eq!(launch_target(&apps, "update my system"), None);
}

#[test]
fn suggestions_match_substrings() {
    let apps = app_catalog();
    assert_eq!(suggested_apps(&apps, "  fire "), vec![0]);
    assert_eq!(suggested_apps(&apps, "TER"), vec![1]);
    assert_eq!(suggested_apps(&apps, "xfce"), vec![2, 4]);
    assert_eq!(suggested_apps(&apps, "   "), Vec::<usize>::new());
    assert_eq!(suggested_apps(&apps, "zzz"), Vec::<usize>::new());
}

fn numbers(e: &MathExpr, out: &mut Vec<String>) {
    match e {
        MathExpr::Number(t) => out.push(t.clone()),
        MathExpr::Apply { left, right, .. } => {
            if let Some(l) = left {
                numbers(l, out);
            }
            numbers(right, out);
        }
    }
}

#[test]
fn numbers_hold_no_operators() {
    let mut out = Vec::new();
    numbers(&parse_math("1+2*3-4/5--6"), &mut out);
    assert_eq!(out, vec!["1", "2", "3", "4", "5", "", "6"]);
    for n in out {
        assert!(!n.contains(|c| c == '+' || c == '-' || c == '*' || c == '/'));
    }
}

#[test]
fn lowercase_suggestions_see_through_case() {
    let apps = app_catalog();
    assert_eq!(suggested_apps(&apps, "FIREFOX"), vec![0]);
    assert_eq!(launch_target(&apps, "CALC"), Some(3));
}

#[test]
fn launch_decision_on_lowered_text() {
    let apps = app_catalog();
    let names: Vec<String> = apps.iter().map(|a| a.name.to_lowercase()).collect();
    assert_eq!(launch_target_lowered(&apps, "Calc", "calc", &names), Some(3));
    assert_eq!(launch_target_lowered(&apps, "THUNAR", "thunar", &names), Some(2));
    assert_eq!(launch_target_lowered(&apps, "zzz", "zzz", &names), None);
}

#[test]
fn suggestions_on_lowered_text() {
    let exes = vec!["firefox".to_string(), "thunar".to_string()];
    let names = vec!["firefox web browser".to_string(), "xfce file manager".to_string()];
    assert_eq!(suggested_apps_lowered("fi", &exes, &names), vec![0, 1]);
    assert_eq!(suggested_apps_lowered("nar", &exes, &names), vec![1]);
    assert_eq!(suggested_apps_lowered("q", &exes, &names), Vec::<usize>::new());
}
