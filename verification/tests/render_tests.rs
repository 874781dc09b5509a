use dice_roll::Dice;
use dice_roll::RollRequest;
use dice_roll::RollResponse;
use dice_roll::Rolls;
use dice_roll::parser::parse;

#[test]
fn render_hand_built_response() {
    let resp = RollResponse {
        rolls: vec![Rolls {
            count: 2,
            sides: 6,
            modifier: 1,
            rolls: vec![3, 5],
            total: 9,
        }],
        total: 9,
    };
    assert_eq!(resp.to_string(), "(3 of 6) + (5 of 6) + 1 = 9");
}

#[test]
fn render_two_groups_with_negative_modifier() {
    let resp = RollResponse {
        rolls: vec![
            Rolls {
                count: 1,
                sides: 20,
                modifier: -3,
                rolls: vec![17],
                total: 14,
            },
            Rolls {
                count: 2,
                sides: 4,
                modifier: 0,
                rolls: vec![1, 4],
                total: 5,
            },
        ],
        total: 19,
    };
    assert_eq!(
        resp.to_string(),
        "(17 of 20) - 3 + (1 of 4) + (4 of 4) = 19"
    );
}

#[test]
fn render_empty_response() {
    let resp = RollResponse {
        rolls: Vec::new(),
        total: 0,
    };
    assert_eq!(resp.to_string(), "= 0");
}

#[test]
fn render_negative_total() {
    let req = RollRequest {
        dice: vec![Dice {
            count: 1,
            sides: 1,
            modifier: -100,
        }],
    };
    let resp = req.roll_dice().unwrap();
    assert_eq!(resp.total, -99);
    assert_eq!(resp.to_string(), "(1 of 1) - 100 = -99");
}

#[test]
fn rendered_rolls_are_deterministic_for_one_sided_dice() {
    let req = parse("2d1+3".to_string()).unwrap();
    let resp = req.roll_dice().unwrap();
    assert_eq!(resp.to_string(), "(1 of 1) + (1 of 1) + 3 = 5");
}

#[test]
fn full_pipeline_ends_with_grand_total() {
    let inputs = [
        "2d6+1",
        "1d20-3+4d4",
        "100d1000",
        "3d6",
        "1d1-100",
        "2 d 6 + 1d8",
    ];
    for input in inputs.iter() {
        let req = parse(input.to_string()).unwrap();
        let validated = req.validate_roll_request();
        assert!(validated.is_ok());
        let resp = req.roll_dice().unwrap();
        let total = resp.total;
        let text = resp.to_string();
        assert!(text.ends_with(&format!("= {}", total)));
    }
}
