use ray_client::Ray;

#[derive(Debug)]
struct TestStruct(&'static str);

#[test]
fn macro_no_args() {
    let _ray = Ray::new();
}

#[test]
fn macro_one_arg() {
    let mut ray = Ray::new();
    ray.log(vec![format!("{:?}", TestStruct("One arg"))]);
    ray.color("green");
}

#[test]
fn macro_multiple_args() {
    let mut ray = Ray::new();
    let mut values = Vec::new();
    values.push(format!("{:?}", "multiple"));
    values.push(format!("{:?}", TestStruct("args")));
    values.push(format!("{:?}", vec![1, 2, 3]));
    ray.log(values);
    ray.color("green");
}

#[test]
fn log() {
    let mut ray = Ray::new();
    ray.log(vec!["log".to_string()]);
}

#[test]
fn text() {
    let mut ray = Ray::new();
    ray.text("text".to_string());
}

#[test]
fn color() {
    let mut ray = Ray::new();
    ray.log(vec![format!("{:?}", "red")]);
    ray.color("red");

    let mut ray = Ray::new();
    ray.log(vec![format!("{:?}", "green")]);
    ray.color("green");
}

#[test]
fn confetti() {
    let mut ray = Ray::new();
    ray.confetti();
}
